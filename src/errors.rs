use vstd::prelude::*;

verus! {

/// Every way an operation of this library can be refused.
#[derive(Debug, Clone, Copy, PartialEq, Eq, Structural)]
pub enum MeridianError {
    /// The governance identity is not the one the configuration authorizes.
    UnauthorizedMultisig,
    /// The proposal has already left the pending state.
    ProposalNotPending,
    /// The quorum has not approved the transaction.
    ProposalNotApproved,
    /// The bridge program identity does not match the configuration.
    InvalidWormholeProgram,
    /// The bridge did not accept the message.
    FailedToSendMessage,
    /// The transaction index does not match.
    TransactionIndexMismatch,
    /// The destination chain identifier is not acceptable.
    InvalidTargetChain,
    /// The proposal was already executed.
    ProposalAlreadyExecuted,
    /// The administrative authority does not match.
    UnauthorizedAuthority,
    /// The destination address is malformed.
    InvalidTargetAddress,
    /// The call data is longer than the bound.
    CallDataTooLarge,
    /// The gas limit is above what is accepted.
    GasLimitTooHigh,
    /// A proposal already exists under the same owner and transaction index.
    DuplicateIndex,
    /// No proposal exists under the given owner and transaction index.
    ProposalNotFound,
}

} // verus!
