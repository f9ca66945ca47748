use vstd::prelude::*;

verus! {

/// Why the gateway refused an operation or could not complete it. Every
/// failure is reported to the caller as a value; none is fatal.
#[derive(Debug, PartialEq, Eq)]
pub enum VaultError {
    /// The caller does not hold the role the operation demands.
    Unauthorized,
    /// The token is already on the deposit whitelist.
    AlreadyWhitelisted,
    /// The token is not on the deposit whitelist, so it cannot be removed.
    NotWhitelisted,
    /// Deposits of this token are not accepted.
    TokenNotWhitelisted,
    /// A withdrawal of zero base units is refused.
    InvalidAmount,
    /// The request id was already consumed by a successful withdrawal.
    DuplicateRequest,
    /// The call to the external ledger did not go through; the transport's
    /// own description is passed along verbatim.
    LedgerCallFailed(String),
    /// The external ledger answered but refused the transfer; its message
    /// is passed along verbatim.
    LedgerRejected(String),
}

} // verus!
