use vstd::prelude::*;
use vstd::string::StringExecFns;

verus! {

/// Errors surfaced synchronously by the vault operations.  A failed operation
/// leaves the state unmodified; execution-time venue rejections (slippage,
/// price condition) are not errors but recorded outcomes.
#[derive(Debug, Clone, Copy, PartialEq, Eq, Structural)]
pub enum ContractError {
    /// The sender is neither the vault owner nor an administrator.
    Unauthorized,
    /// No vault, trigger or venue order matches the given key.
    NotFound,
    /// Malformed creation or deposit parameters.
    InvalidInput,
    /// The vault is already in a terminal state (cancelled or completed).
    AlreadyTerminal,
    /// Deposited funds denomination differs from the vault's balance denomination.
    DenomMismatch,
    /// The operation was attempted before its scheduled time: a trigger that is
    /// not yet due, or an escrow claim before the expected completion time.
    NotEligible,
    /// The vault has an unresolved venue request in flight; the operation is
    /// rejected until the confirmation settles (the policy chosen for
    /// cancellation of an in-flight saga: reject rather than queue).
    PendingConfirmation,
    /// An amount or timestamp left the representable range.
    Overflow,
}

impl ContractError {
    /// The host-facing message for this error.
    pub fn message(&self) -> (r: String)
        ensures
            *self is Unauthorized ==> r@ == "Unauthorized"@,
            *self is NotFound ==> r@ == "Error: not found"@,
            *self is InvalidInput ==> r@ == "Error: invalid input"@,
            *self is AlreadyTerminal ==> r@ == "Error: vault is already cancelled"@,
            *self is DenomMismatch ==> r@ == "Error: received asset denom does not match vault deposit denom"@,
            *self is NotEligible ==> r@ == "Error: not eligible yet"@,
            *self is PendingConfirmation ==> r@ == "Error: vault has a pending confirmation"@,
            *self is Overflow ==> r@ == "Error: amount out of range"@,
    {
        match self {
            ContractError::Unauthorized => String::from_str("Unauthorized"),
            ContractError::NotFound => String::from_str("Error: not found"),
            ContractError::InvalidInput => String::from_str("Error: invalid input"),
            ContractError::AlreadyTerminal => String::from_str("Error: vault is already cancelled"),
            ContractError::DenomMismatch => String::from_str(
                "Error: received asset denom does not match vault deposit denom",
            ),
            ContractError::NotEligible => String::from_str("Error: not eligible yet"),
            ContractError::PendingConfirmation => String::from_str(
                "Error: vault has a pending confirmation",
            ),
            ContractError::Overflow => String::from_str("Error: amount out of range"),
        }
    }
}

} // verus!
