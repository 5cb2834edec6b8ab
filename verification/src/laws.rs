//! Laws of the distributor: properties that relate several operations,
//! stated over the abstract model and proved once and for all.
//!
//! A `DistributorOp` describes one invocation; `run_ops` folds a sequence
//! of invocations over the model with the same transition functions the
//! executable operations are proved to implement, so everything shown
//! here holds of any sequence of calls on a `DistributorAccount`.

use vstd::prelude::*;
use crate::distributor::DistributorModel;
use crate::distributor::DistributorError;
use crate::distributor::TokensClaimed;
use crate::distributor::TokensDeposited;
use crate::distributor::MerkleRootUpdated;
use crate::distributor::update_root_step;
use crate::distributor::deposit_step;
use crate::distributor::recover_step;
use crate::distributor::claim_step;

verus! {

/// One invocation of a distributor operation, with its inputs.
pub enum DistributorOp {
    UpdateRoot { caller: [u8; 32], new_root: [u8; 32] },
    Deposit { caller: [u8; 32], amount: u64 },
    Recover { caller: [u8; 32], amount: u64 },
    Claim { claimer: [u8; 32], amount: u64, path: Seq<Seq<u8>> },
}

/// The state after one invocation (failed invocations change nothing).
pub open spec fn apply_op(d: DistributorModel, op: DistributorOp) -> DistributorModel {
    match op {
        DistributorOp::UpdateRoot { caller, new_root } => update_root_step(d, caller, new_root).0,
        DistributorOp::Deposit { caller, amount } => deposit_step(d, caller, amount).0,
        DistributorOp::Recover { caller, amount } => recover_step(d, caller, amount).0,
        DistributorOp::Claim { claimer, amount, path } => claim_step(d, claimer, amount, path).0,
    }
}

/// The state after a sequence of invocations, applied in order.
pub open spec fn run_ops(d: DistributorModel, ops: Seq<DistributorOp>) -> DistributorModel
    decreases ops.len(),
{
    if ops.len() == 0 {
        d
    } else {
        run_ops(apply_op(d, ops[0]), ops.subrange(1, ops.len() as int))
    }
}

/// What one invocation moves into the vault: the amount of a successful
/// deposit, nothing otherwise.
pub open spec fn op_inflow(d: DistributorModel, op: DistributorOp) -> int {
    match op {
        DistributorOp::Deposit { caller, amount } => if deposit_step(d, caller, amount).1 is Ok {
            amount as int
        } else {
            0
        },
        _ => 0,
    }
}

/// What one invocation moves out of the vault: the amount of a successful
/// claim or recovery, nothing otherwise.
pub open spec fn op_outflow(d: DistributorModel, op: DistributorOp) -> int {
    match op {
        DistributorOp::Recover { caller, amount } => if recover_step(d, caller, amount).1 is Ok {
            amount as int
        } else {
            0
        },
        DistributorOp::Claim { claimer, amount, path } => if claim_step(
            d,
            claimer,
            amount,
            path,
        ).1 is Ok {
            amount as int
        } else {
            0
        },
        _ => 0,
    }
}

/// The sum of successful deposits along a run.
pub open spec fn total_inflow(d: DistributorModel, ops: Seq<DistributorOp>) -> int
    decreases ops.len(),
{
    if ops.len() == 0 {
        0
    } else {
        op_inflow(d, ops[0]) + total_inflow(apply_op(d, ops[0]), ops.subrange(1, ops.len() as int))
    }
}

/// The sum of successful claims and recoveries along a run.
pub open spec fn total_outflow(d: DistributorModel, ops: Seq<DistributorOp>) -> int
    decreases ops.len(),
{
    if ops.len() == 0 {
        0
    } else {
        op_outflow(d, ops[0]) + total_outflow(
            apply_op(d, ops[0]),
            ops.subrange(1, ops.len() as int),
        )
    }
}

/// Every deposit along the run keeps the vault balance within `u64`
/// (the machine bound the executable deposit requires of its caller).
pub open spec fn deposits_fit(d: DistributorModel, ops: Seq<DistributorOp>) -> bool
    decreases ops.len(),
{
    if ops.len() == 0 {
        true
    } else {
        (match ops[0] {
            DistributorOp::Deposit { caller, amount } => caller@ == d.authority
                ==> d.vault_balance + amount <= u64::MAX,
            _ => true,
        }) && deposits_fit(apply_op(d, ops[0]), ops.subrange(1, ops.len() as int))
    }
}

/// Authority gating: invoked by any identity other than the stored
/// authority, root rotation, deposit and recovery all fail Unauthorized
/// and leave the state unchanged.
pub proof fn lemma_authority_gating(
    d: DistributorModel,
    caller: [u8; 32],
    new_root: [u8; 32],
    amount: u64,
)
    requires
        caller@ != d.authority,
    ensures
        update_root_step(d, caller, new_root) == (
            d,
            Err::<MerkleRootUpdated, DistributorError>(DistributorError::Unauthorized),
        ),
        deposit_step(d, caller, amount) == (
            d,
            Err::<TokensDeposited, DistributorError>(DistributorError::Unauthorized),
        ),
        recover_step(d, caller, amount) == (
            d,
            Err::<TokensDeposited, DistributorError>(DistributorError::Unauthorized),
        ),
{
}

/// Root rotation, deposits and recovery never touch the claim registry,
/// and a failed claim leaves it as it was: only a successful claim by a
/// claimer adds that claimer's record.
pub proof fn lemma_admin_ops_preserve_claims(
    d: DistributorModel,
    caller: [u8; 32],
    new_root: [u8; 32],
    amount: u64,
)
    ensures
        update_root_step(d, caller, new_root).0.claimed == d.claimed,
        deposit_step(d, caller, amount).0.claimed == d.claimed,
        recover_step(d, caller, amount).0.claimed == d.claimed,
{
}

/// Single claim: once a claim for a claimer has succeeded, repeating it
/// with the same parameters fails AlreadyClaimed and moves no funds.
pub proof fn lemma_single_claim(
    d: DistributorModel,
    claimer: [u8; 32],
    amount: u64,
    path: Seq<Seq<u8>>,
)
    requires
        claim_step(d, claimer, amount, path).1 is Ok,
    ensures
        claim_step(d, claimer, amount, path).0.is_claimed(claimer@),
        claim_step(claim_step(d, claimer, amount, path).0, claimer, amount, path) == (
            claim_step(d, claimer, amount, path).0,
            Err::<TokensClaimed, DistributorError>(DistributorError::AlreadyClaimed),
        ),
{
    let d1 = claim_step(d, claimer, amount, path).0;
    assert(d1.claimed == d.claimed.push(claimer@));
    assert(d1.claimed[d.claimed.len() as int] == claimer@);
    assert(d1.is_claimed(claimer@));
}

/// A recorded claim is permanent: no sequence of further operations,
/// root rotations included, removes it.
pub proof fn lemma_claim_is_permanent(
    d: DistributorModel,
    claimer: Seq<u8>,
    ops: Seq<DistributorOp>,
)
    requires
        d.is_claimed(claimer),
    ensures
        run_ops(d, ops).is_claimed(claimer),
    decreases ops.len(),
{
    if ops.len() > 0 {
        let d1 = apply_op(d, ops[0]);
        let k = choose|k: int| 0 <= k < d.claimed.len() && d.claimed[k] == claimer;
        assert(d1.claimed[k] == claimer);
        lemma_claim_is_permanent(d1, claimer, ops.subrange(1, ops.len() as int));
    }
}

/// At most one successful claim per (distributor, claimer): after a
/// successful claim, however the distributor is operated afterwards, a
/// further claim attempt by the same claimer fails and moves no funds.
pub proof fn lemma_at_most_one_claim(
    d: DistributorModel,
    claimer: [u8; 32],
    amount: u64,
    path: Seq<Seq<u8>>,
    ops: Seq<DistributorOp>,
    amount2: u64,
    path2: Seq<Seq<u8>>,
)
    requires
        claim_step(d, claimer, amount, path).1 is Ok,
    ensures
        ({
            let dn = run_ops(claim_step(d, claimer, amount, path).0, ops);
            &&& claim_step(dn, claimer, amount2, path2).1 is Err
            &&& claim_step(dn, claimer, amount2, path2).0 == dn
        }),
{
    let d1 = claim_step(d, claimer, amount, path).0;
    lemma_single_claim(d, claimer, amount, path);
    lemma_claim_is_permanent(d1, claimer@, ops);
}

/// Balance change of one invocation: the vault gains exactly what a
/// successful deposit brings in and loses exactly what a successful claim
/// or recovery takes out; failed invocations change nothing.
proof fn lemma_step_balance(d: DistributorModel, op: DistributorOp)
    requires
        match op {
            DistributorOp::Deposit { caller, amount } => caller@ == d.authority
                ==> d.vault_balance + amount <= u64::MAX,
            _ => true,
        },
    ensures
        apply_op(d, op).vault_balance == d.vault_balance + op_inflow(d, op) - op_outflow(d, op),
{
}

/// Balance conservation: after any sequence of operations the vault
/// balance equals the initial balance plus the successful deposits minus
/// the successful claims and recoveries, and is never negative.
pub proof fn lemma_balance_conservation(d: DistributorModel, ops: Seq<DistributorOp>)
    requires
        deposits_fit(d, ops),
    ensures
        run_ops(d, ops).vault_balance == d.vault_balance + total_inflow(d, ops) - total_outflow(
            d,
            ops,
        ),
        run_ops(d, ops).vault_balance >= 0,
    decreases ops.len(),
{
    if ops.len() > 0 {
        let d1 = apply_op(d, ops[0]);
        lemma_step_balance(d, ops[0]);
        lemma_balance_conservation(d1, ops.subrange(1, ops.len() as int));
    }
}

} // verus!
