use vstd::prelude::*;

pub mod codec;
pub mod identity;
pub mod ledger;
pub mod lifecycle;
pub mod instruction;
pub mod record;

verus! {

/// The error taxonomy of the loan program. Every operation either succeeds
/// or aborts with exactly one of these; no partial state is ever committed.
#[derive(Clone, Copy, Debug, PartialEq, Eq, Structural)]
pub enum LoanError {
    /// A required actor did not sign the request.
    MissingSignature,
    /// An account that must be owned by this program (or must be the
    /// system-allocation identity) is not.
    WrongOwner,
    /// The instruction payload does not decode to any known operation.
    MalformedInstruction,
    /// The loan record bytes do not match the fixed record layout.
    CorruptRecord,
    /// A loan-lifecycle precondition was violated.
    InvalidState,
    /// The pool does not hold enough funds to disburse the loan.
    InsufficientFunds,
    /// Interest or repayment arithmetic would overflow.
    ArithmeticOverflow,
    /// The host could not move the requested balance.
    TransferFailed,
    /// The host could not allocate and fund the new record account.
    AllocationFailed,
    /// The request supplied fewer accounts than the operation needs.
    MissingAccount,
}

} // verus!
