//! The rule that decides when a pending transfer is ready to settle.

use vstd::prelude::*;

verus! {

/// Whether a transfer is ready to settle, in a wallet with `signers`
/// co-signers, when `approvals` approvals had been collected before the one
/// that is being recorded: two thirds of the co-signers, rounded down, must
/// not exceed those approvals and two more, one for the initiator and one
/// for the approval being recorded.
pub open spec fn threshold_met(signers: nat, approvals: nat) -> bool {
    approvals + 2 >= (2 * signers) / 3
}

/// Decides whether a transfer is ready to settle.
pub fn majority_reached(signers_count: u64, approvals_count: u64) -> (ready: bool)
    ensures
        ready == threshold_met(signers_count as nat, approvals_count as nat),
{
    let needed: u128 = (2 * (signers_count as u128)) / 3;
    (approvals_count as u128) + 2 >= needed
}

/// More approvals never make a transfer less ready.
pub proof fn lemma_threshold_monotone(signers: nat, approvals: nat, more: nat)
    requires
        threshold_met(signers, approvals),
        approvals <= more,
    ensures
        threshold_met(signers, more),
{
}

/// A transfer is ready with no approval collected exactly in the wallets
/// that have at most four co-signers.
pub proof fn lemma_threshold_without_approvals(signers: nat)
    ensures
        threshold_met(signers, 0) <==> signers <= 4,
{
}

/// The least number of collected approvals with which a transfer is ready
/// is two thirds of the co-signers, rounded down, less two, and no less
/// than none.
pub proof fn lemma_threshold_least(signers: nat, approvals: nat)
    ensures
        threshold_met(signers, approvals) <==> approvals >= (2 * signers) / 3 - 2,
{
}

} // verus!
