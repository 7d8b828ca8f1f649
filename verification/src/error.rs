use vstd::prelude::*;

verus! {

/// Every way an invocation can fail. Each failure aborts the whole operation:
/// no buffer is changed when one of these comes back.
#[derive(Clone, Copy, Debug, PartialEq, Eq, Structural)]
pub enum VoteError {
    /// The requested option id is outside the ledger's current range.
    UnexpectedCandidate,
    /// A buffer that must be owned by the program's authority is not.
    IncorrectOwner,
    /// A storage buffer does not meet the host's durability requirement.
    AccountNotRentExempt,
    /// The supplied check-record address does not match the derived one.
    AccountNotCheckAccount,
    /// The voter's check record already carries a nonzero vote.
    AlreadyVoted,
    /// A buffer's bytes do not match the expected schema.
    MalformedLedger,
    /// The voter's key did not sign the invocation.
    MissingRequiredSignature,
    /// The re-encoded ledger would not fit in its buffer.
    BufferOverflow,
}

} // verus!
