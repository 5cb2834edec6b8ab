//! The distributor: authority, Merkle commitment, vault, and claim registry.
//!
//! One `DistributorAccount` holds a distribution campaign's whole mutable
//! state. Its transitions are given first as total specification functions
//! on the account's abstract model; each executable operation is proved to
//! implement its transition exactly, so the emitted notification, the error
//! and the state change are pinned for every input.

use vstd::prelude::*;
use crate::hashing::leaf_hash;
use crate::merkle::node_views;
use crate::merkle::proof_verifies;
use crate::merkle::verify_proof;
use crate::hashing::hash_leaf;
use crate::bytes32::eq_bytes32;

verus! {

/// Notification emitted when a claim transfer succeeds.
#[derive(Clone, Copy, Debug)]
pub struct TokensClaimed {
    pub claimer: [u8; 32],
    pub amount: u64,
}

/// Notification emitted when the Merkle commitment is replaced.
#[derive(Clone, Copy, Debug)]
pub struct MerkleRootUpdated {
    pub new_root: [u8; 32],
}

/// Notification emitted when tokens move into the vault, and (as in the
/// original interface) reused when the authority recovers tokens from it.
#[derive(Clone, Copy, Debug)]
pub struct TokensDeposited {
    pub amount: u64,
}

/// The ways an operation can fail. Every failure leaves the account
/// exactly as it was.
#[derive(Clone, Copy, Debug, PartialEq, Eq, Structural)]
pub enum DistributorError {
    Unauthorized,
    InvalidProof,
    AlreadyClaimed,
    InsufficientVaultBalance,
}

/// Per-claimer claim record: `is_claimed` is set exactly once, when a
/// claim transfer succeeds, and never cleared.
#[derive(Clone, Copy, Debug, PartialEq, Eq, Structural)]
pub struct ClaimStatus {
    pub is_claimed: bool,
}

/// Abstract model of a distributor: the identities and the commitment as
/// byte sequences, the vault balance, and the set of claimers that have
/// already claimed, as the sequence of their identity bytes.
#[verifier::ext_equal]
pub struct DistributorModel {
    pub authority: Seq<u8>,
    pub merkle_root: Seq<u8>,
    pub unique_seed: Seq<u8>,
    pub vault_balance: u64,
    pub claimed: Seq<Seq<u8>>,
}

impl DistributorModel {
    /// Whether this claimer has already claimed.
    pub open spec fn is_claimed(self, claimer: Seq<u8>) -> bool {
        self.claimed.contains(claimer)
    }
}

/// The state of a freshly initialized distributor: fields as given, an
/// empty vault, and no claims.
pub open spec fn init_state(
    authority: [u8; 32],
    merkle_root: [u8; 32],
    unique_seed: [u8; 8],
) -> DistributorModel {
    DistributorModel {
        authority: authority@,
        merkle_root: merkle_root@,
        unique_seed: unique_seed@,
        vault_balance: 0,
        claimed: Seq::empty(),
    }
}

/// Root rotation: if the caller is the authority the commitment is
/// replaced and the notification carries the new root; otherwise nothing
/// changes and the call is Unauthorized.
pub open spec fn update_root_step(
    d: DistributorModel,
    caller: [u8; 32],
    new_root: [u8; 32],
) -> (DistributorModel, Result<MerkleRootUpdated, DistributorError>) {
    if caller@ == d.authority {
        (
            DistributorModel { merkle_root: new_root@, ..d },
            Ok(MerkleRootUpdated { new_root }),
        )
    } else {
        (d, Err(DistributorError::Unauthorized))
    }
}

/// Deposit: only the authority may fund the vault; on success the balance
/// grows by exactly `amount`.
pub open spec fn deposit_step(
    d: DistributorModel,
    caller: [u8; 32],
    amount: u64,
) -> (DistributorModel, Result<TokensDeposited, DistributorError>) {
    if caller@ == d.authority {
        (
            DistributorModel { vault_balance: (d.vault_balance + amount) as u64, ..d },
            Ok(TokensDeposited { amount }),
        )
    } else {
        (d, Err(DistributorError::Unauthorized))
    }
}

/// Recovery: only the authority may sweep funds out, the vault must cover
/// the amount, and claim records are untouched.
pub open spec fn recover_step(
    d: DistributorModel,
    caller: [u8; 32],
    amount: u64,
) -> (DistributorModel, Result<TokensDeposited, DistributorError>) {
    if caller@ != d.authority {
        (d, Err(DistributorError::Unauthorized))
    } else if amount > d.vault_balance {
        (d, Err(DistributorError::InsufficientVaultBalance))
    } else {
        (
            DistributorModel { vault_balance: (d.vault_balance - amount) as u64, ..d },
            Ok(TokensDeposited { amount }),
        )
    }
}

/// Claim: the proof must verify against the current root for the leaf of
/// (claimer, amount), the claimer must not have claimed before, and the
/// vault must cover the amount; then the balance shrinks by `amount`, the
/// claimer is recorded, and the notification names both.
pub open spec fn claim_step(
    d: DistributorModel,
    claimer: [u8; 32],
    amount: u64,
    path: Seq<Seq<u8>>,
) -> (DistributorModel, Result<TokensClaimed, DistributorError>) {
    if !proof_verifies(path, d.merkle_root, leaf_hash(claimer@, amount)) {
        (d, Err(DistributorError::InvalidProof))
    } else if d.is_claimed(claimer@) {
        (d, Err(DistributorError::AlreadyClaimed))
    } else if amount > d.vault_balance {
        (d, Err(DistributorError::InsufficientVaultBalance))
    } else {
        (
            DistributorModel {
                vault_balance: (d.vault_balance - amount) as u64,
                claimed: d.claimed.push(claimer@),
                ..d
            },
            Ok(TokensClaimed { claimer, amount }),
        )
    }
}

/// One distribution campaign: the authority's identity, the current
/// Merkle commitment, the instance's seed, the custodial vault balance,
/// and the identities that have already claimed.
pub struct DistributorAccount {
    pub authority: [u8; 32],
    pub merkle_root: [u8; 32],
    pub unique_seed: [u8; 8],
    pub vault_balance: u64,
    pub claimed: Vec<[u8; 32]>,
}

impl View for DistributorAccount {
    type V = DistributorModel;

    open spec fn view(&self) -> DistributorModel {
        DistributorModel {
            authority: self.authority@,
            merkle_root: self.merkle_root@,
            unique_seed: self.unique_seed@,
            vault_balance: self.vault_balance,
            claimed: Seq::new(self.claimed@.len(), |i: int| self.claimed@[i]@),
        }
    }
}

impl DistributorAccount {
    /// Creates a distributor bound to an authority, a Merkle commitment
    /// and a seed, with an empty vault and no claims.
    pub fn initialize(
        merkle_root: [u8; 32],
        unique_seed: [u8; 8],
        authority: [u8; 32],
    ) -> (d: DistributorAccount)
        ensures
            d@ == init_state(authority, merkle_root, unique_seed),
    {
        let d = DistributorAccount {
            authority,
            merkle_root,
            unique_seed,
            vault_balance: 0,
            claimed: Vec::new(),
        };
        proof {
            assert(d@.claimed =~= Seq::<Seq<u8>>::empty());
            assert(d@ =~= init_state(authority, merkle_root, unique_seed));
        }
        d
    }

    /// Whether `claimer` has already claimed from this distributor.
    fn contains_claimer(&self, claimer: &[u8; 32]) -> (r: bool)
        ensures
            r == self@.is_claimed(claimer@),
    {
        let n = self.claimed.len();
        let mut i: usize = 0;
        while i < n
            invariant
                0 <= i <= n,
                n == self.claimed@.len(),
                forall|j: int| 0 <= j < i ==> self.claimed@[j]@ != claimer@,
            decreases n - i,
        {
            let entry: [u8; 32] = self.claimed[i];
            if eq_bytes32(&entry, claimer) {
                proof {
                    assert(self@.claimed[i as int] == claimer@);
                }
                return true;
            }
            i = i + 1;
        }
        proof {
            assert forall|j: int| 0 <= j < self@.claimed.len()
                implies self@.claimed[j] != claimer@ by {
                assert(self@.claimed[j] == self.claimed@[j]@);
            }
        }
        false
    }

    /// The claim record for `claimer`: set exactly when a claim transfer
    /// for this claimer has succeeded.
    pub fn claim_status(&self, claimer: &[u8; 32]) -> (s: ClaimStatus)
        ensures
            s.is_claimed == self@.is_claimed(claimer@),
    {
        ClaimStatus { is_claimed: self.contains_claimer(claimer) }
    }

    /// Replaces the Merkle commitment; authority only.
    pub fn update_merkle_root(
        &mut self,
        caller: [u8; 32],
        new_root: [u8; 32],
    ) -> (r: Result<MerkleRootUpdated, DistributorError>)
        ensures
            (final(self)@, r) == update_root_step(old(self)@, caller, new_root),
    {
        if !eq_bytes32(&caller, &self.authority) {
            return Err(DistributorError::Unauthorized);
        }
        self.merkle_root = new_root;
        proof {
            assert(self@ =~= update_root_step(old(self)@, caller, new_root).0);
        }
        Ok(MerkleRootUpdated { new_root })
    }

    /// Moves `amount` from the authority's holding into the vault;
    /// authority only.
    pub fn deposit_tokens(
        &mut self,
        caller: [u8; 32],
        amount: u64,
    ) -> (r: Result<TokensDeposited, DistributorError>)
        requires
            caller@ == old(self)@.authority
                ==> old(self)@.vault_balance + amount <= u64::MAX,
        ensures
            (final(self)@, r) == deposit_step(old(self)@, caller, amount),
    {
        if !eq_bytes32(&caller, &self.authority) {
            return Err(DistributorError::Unauthorized);
        }
        self.vault_balance = self.vault_balance + amount;
        proof {
            assert(self@ =~= deposit_step(old(self)@, caller, amount).0);
        }
        Ok(TokensDeposited { amount })
    }

    /// Moves `amount` from the vault back to an authority-designated
    /// destination; authority only, and the vault must cover it.
    pub fn recover_tokens(
        &mut self,
        caller: [u8; 32],
        amount: u64,
    ) -> (r: Result<TokensDeposited, DistributorError>)
        ensures
            (final(self)@, r) == recover_step(old(self)@, caller, amount),
    {
        if !eq_bytes32(&caller, &self.authority) {
            return Err(DistributorError::Unauthorized);
        }
        if amount > self.vault_balance {
            return Err(DistributorError::InsufficientVaultBalance);
        }
        self.vault_balance = self.vault_balance - amount;
        proof {
            assert(self@ =~= recover_step(old(self)@, caller, amount).0);
        }
        Ok(TokensDeposited { amount })
    }

    /// Transfers `amount` from the vault to `claimer`, provided the proof
    /// verifies against the current root, the claimer has not claimed
    /// before, and the vault covers the amount; the claim is recorded so
    /// it can never be repeated.
    pub fn claim(
        &mut self,
        claimer: [u8; 32],
        amount: u64,
        path: &Vec<[u8; 32]>,
    ) -> (r: Result<TokensClaimed, DistributorError>)
        ensures
            (final(self)@, r) == claim_step(old(self)@, claimer, amount, node_views(path@)),
    {
        let leaf = hash_leaf(&claimer, amount);
        if !verify_proof(path, self.merkle_root, leaf) {
            return Err(DistributorError::InvalidProof);
        }
        if self.contains_claimer(&claimer) {
            return Err(DistributorError::AlreadyClaimed);
        }
        if amount > self.vault_balance {
            return Err(DistributorError::InsufficientVaultBalance);
        }
        self.vault_balance = self.vault_balance - amount;
        self.claimed.push(claimer);
        proof {
            let target = claim_step(old(self)@, claimer, amount, node_views(path@)).0;
            assert(self@.claimed =~= target.claimed);
            assert(self@ =~= target);
        }
        Ok(TokensClaimed { claimer, amount })
    }
}

} // verus!
