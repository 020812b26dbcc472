use vstd::prelude::*;

verus! {

/// Why an entry point rejected a call. A rejected call leaves the store as
/// it was.
#[derive(Clone, Copy, Debug, PartialEq, Eq, Structural)]
pub enum Error {
    /// The contract (or the part of it that the call needs) was never set up.
    NotInitialized,
    /// The contract was set up before.
    AlreadyInitialized,
    /// The caller did not authenticate or lacks the role the call asks for.
    Unauthorized,
    /// The contract is paused.
    Paused,
    /// Nothing is stored under the key the call names.
    NotFound,
    /// Something is already stored under the key the call names.
    AlreadyExists,
    /// Two items of one batch share a business and a period.
    DuplicateInBatch,
    /// The batch holds no item.
    EmptyBatch,
    /// A negative fee, malformed brackets, a bad currency code, a discount
    /// or a threshold out of range.
    InvalidConfig,
    /// A migration must raise the version.
    VersionNotIncreasing,
    /// The proposal has not gathered enough approvals.
    ProposalNotApproved,
    /// The proposal's time to live has elapsed.
    ProposalExpired,
    /// The proposal was executed or rejected before.
    ProposalAlreadyTerminal,
}

} // verus!
