use token_distributor::distributor::DistributorAccount;
use token_distributor::distributor::DistributorError;
use token_distributor::hashing::hash_leaf;
use token_distributor::hashing::hash_node;

const ALICE: [u8; 32] = [0xA1; 32];
const BOB: [u8; 32] = [0xB0; 32];
const AUTHORITY: [u8; 32] = [0x05; 32];
const MALLORY: [u8; 32] = [0xEE; 32];
const SEED: [u8; 8] = [9; 8];

/// Root over the leaves {(Alice, 100), (Bob, 50)} and the two proofs.
fn two_leaf_setup() -> ([u8; 32], Vec<[u8; 32]>, Vec<[u8; 32]>) {
    let la = hash_leaf(&ALICE, 100);
    let lb = hash_leaf(&BOB, 50);
    let root = hash_node(&la, &lb);
    (root, vec![lb], vec![la])
}

#[test]
fn initialize_sets_fields_and_empty_vault() {
    let (root, _, _) = two_leaf_setup();
    let d = DistributorAccount::initialize(root, SEED, AUTHORITY);
    assert_eq!(d.authority, AUTHORITY);
    assert_eq!(d.merkle_root, root);
    assert_eq!(d.unique_seed, SEED);
    assert_eq!(d.vault_balance, 0);
    assert!(!d.claim_status(&ALICE).is_claimed);
}

#[test]
fn full_distribution_scenario() {
    let (root, alice_proof, bob_proof) = two_leaf_setup();
    let mut d = DistributorAccount::initialize(root, SEED, AUTHORITY);

    let dep = d.deposit_tokens(AUTHORITY, 150).unwrap();
    assert_eq!(dep.amount, 150);
    assert_eq!(d.vault_balance, 150);

    let claimed = d.claim(ALICE, 100, &alice_proof).unwrap();
    assert_eq!(claimed.claimer, ALICE);
    assert_eq!(claimed.amount, 100);
    assert_eq!(d.vault_balance, 50);
    assert!(d.claim_status(&ALICE).is_claimed);

    // Replaying the same proof must fail and move nothing.
    let again = d.claim(ALICE, 100, &alice_proof);
    assert_eq!(again.unwrap_err(), DistributorError::AlreadyClaimed);
    assert_eq!(d.vault_balance, 50);

    let claimed_b = d.claim(BOB, 50, &bob_proof).unwrap();
    assert_eq!(claimed_b.claimer, BOB);
    assert_eq!(claimed_b.amount, 50);
    assert_eq!(d.vault_balance, 0);

    let sweep = d.recover_tokens(AUTHORITY, 1);
    assert_eq!(sweep.unwrap_err(), DistributorError::InsufficientVaultBalance);
    assert_eq!(d.vault_balance, 0);
}

#[test]
fn root_rotation_invalidates_old_proofs() {
    let (root, alice_proof, bob_proof) = two_leaf_setup();
    let mut d = DistributorAccount::initialize(root, SEED, AUTHORITY);
    d.deposit_tokens(AUTHORITY, 150).unwrap();
    d.claim(ALICE, 100, &alice_proof).unwrap();

    // The authority rotates the commitment to a root over other leaves.
    let r2 = hash_node(&hash_leaf(&ALICE, 1), &hash_leaf(&BOB, 2));
    let upd = d.update_merkle_root(AUTHORITY, r2).unwrap();
    assert_eq!(upd.new_root, r2);
    assert_eq!(d.merkle_root, r2);

    // Bob never claimed, but his proof was built for the old root.
    let bob = d.claim(BOB, 50, &bob_proof);
    assert_eq!(bob.unwrap_err(), DistributorError::InvalidProof);
    assert_eq!(d.vault_balance, 50);
    assert!(!d.claim_status(&BOB).is_claimed);
}

#[test]
fn non_authority_is_rejected_everywhere() {
    let (root, _, _) = two_leaf_setup();
    let mut d = DistributorAccount::initialize(root, SEED, AUTHORITY);
    d.deposit_tokens(AUTHORITY, 10).unwrap();

    let upd = d.update_merkle_root(MALLORY, [0; 32]);
    assert_eq!(upd.unwrap_err(), DistributorError::Unauthorized);
    assert_eq!(d.merkle_root, root);

    let dep = d.deposit_tokens(MALLORY, 5);
    assert_eq!(dep.unwrap_err(), DistributorError::Unauthorized);
    assert_eq!(d.vault_balance, 10);

    let rec = d.recover_tokens(MALLORY, 5);
    assert_eq!(rec.unwrap_err(), DistributorError::Unauthorized);
    assert_eq!(d.vault_balance, 10);
}

#[test]
fn claim_with_invalid_proof_is_rejected() {
    let (root, alice_proof, _) = two_leaf_setup();
    let mut d = DistributorAccount::initialize(root, SEED, AUTHORITY);
    d.deposit_tokens(AUTHORITY, 150).unwrap();

    // Wrong amount: the leaf no longer matches the committed allocation.
    let wrong_amount = d.claim(ALICE, 101, &alice_proof);
    assert_eq!(wrong_amount.unwrap_err(), DistributorError::InvalidProof);

    // Wrong claimer with Alice's proof.
    let wrong_claimer = d.claim(MALLORY, 100, &alice_proof);
    assert_eq!(wrong_claimer.unwrap_err(), DistributorError::InvalidProof);

    assert_eq!(d.vault_balance, 150);
    assert!(!d.claim_status(&ALICE).is_claimed);
}

#[test]
fn claim_exceeding_vault_is_rejected_and_retriable() {
    let (root, alice_proof, _) = two_leaf_setup();
    let mut d = DistributorAccount::initialize(root, SEED, AUTHORITY);
    d.deposit_tokens(AUTHORITY, 60).unwrap();

    // A valid proof for an amount the vault cannot cover fails cleanly.
    let r = d.claim(ALICE, 100, &alice_proof);
    assert_eq!(r.unwrap_err(), DistributorError::InsufficientVaultBalance);
    assert_eq!(d.vault_balance, 60);
    assert!(!d.claim_status(&ALICE).is_claimed);

    // After a further deposit the same claim succeeds.
    d.deposit_tokens(AUTHORITY, 40).unwrap();
    let ok = d.claim(ALICE, 100, &alice_proof).unwrap();
    assert_eq!(ok.amount, 100);
    assert_eq!(d.vault_balance, 0);
}

#[test]
fn recover_sweeps_remaining_balance() {
    let (root, alice_proof, _) = two_leaf_setup();
    let mut d = DistributorAccount::initialize(root, SEED, AUTHORITY);
    d.deposit_tokens(AUTHORITY, 150).unwrap();
    d.claim(ALICE, 100, &alice_proof).unwrap();

    let swept = d.recover_tokens(AUTHORITY, 50).unwrap();
    assert_eq!(swept.amount, 50);
    assert_eq!(d.vault_balance, 0);
    // Recovery does not touch claim records.
    assert!(d.claim_status(&ALICE).is_claimed);
    assert!(!d.claim_status(&BOB).is_claimed);
}
