//! The typed failures of the stake program.

use vstd::prelude::*;

verus! {

/// Why an instruction, or an append to the stake history, was refused.
#[derive(Clone, Copy, Debug, PartialEq, Eq, Structural)]
pub enum StakeError {
    /// The instruction bytes do not decode, the instruction names too few
    /// accounts or accounts of the wrong kind, or applying it would push a
    /// lamport balance past 64 bits.
    InvalidInstructionData,
    /// The account holds no stake state yet.
    AccountNotInitialized,
    /// The account already left the uninitialized state.
    AlreadyInitialized,
    /// The account is in no state from which the requested change of
    /// delegation is allowed.
    NotDelegatable,
    /// The balance does not cover the request.
    InsufficientFunds,
    /// The lockup has not expired and its custodian did not sign.
    LockupInForce,
    /// The authority that the instruction needs did not sign.
    MissingSignature,
    /// The named vote account holds no vote state.
    InvalidVoteAccount,
    /// The vote account earned no credits since the last redemption.
    NothingToRedeem,
    /// The rewards pool cannot pay what is owed. Internal: the pool is
    /// funded by the cluster, so this shows a defect, not a user's mistake.
    RewardsPoolInsufficient,
    /// An entry was appended to the stake history out of sequence. Internal.
    HistoryEpochGap,
}

impl StakeError {
    /// Whether the error reports a broken internal invariant, which the
    /// runtime must escalate, instead of a failed transaction.
    pub open spec fn spec_is_fatal(self) -> bool {
        self is RewardsPoolInsufficient || self is HistoryEpochGap
    }

    /// Whether the error reports a broken internal invariant.
    pub fn is_fatal(&self) -> (fatal: bool)
        ensures
            fatal == self.spec_is_fatal(),
    {
        match self {
            StakeError::RewardsPoolInsufficient => true,
            StakeError::HistoryEpochGap => true,
            _ => false,
        }
    }
}

} // verus!
