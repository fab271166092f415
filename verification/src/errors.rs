use vstd::prelude::*;

verus! {

/// A failure reported by the value-transfer primitive.
#[derive(Clone, Copy, Debug, PartialEq, Eq, Structural)]
pub enum TransferError {
    /// The source account holds less value than the transfer asks for.
    InsufficientBalance,
    /// The presented capability does not control the source account.
    Unauthorized,
}

/// Every way an operation can be rejected. Each kind is terminal for the
/// enclosing operation: the whole transition is discarded and the caller sees
/// exactly one kind per failed attempt.
#[derive(Clone, Copy, Debug, PartialEq, Eq, Structural)]
pub enum ErrorCode {
    /// The derived address that a creation targets already holds data.
    AlreadyExists,
    /// The project does not accept new investment.
    ProjectNotActive,
    /// Accepting the contribution would push `raised_amount` past `target_amount`.
    ExceedsTargetAmount,
    /// The contribution is below the fixed investment floor.
    MinimumInvestmentNotMet,
    /// The caller is not the project's stored authority.
    Unauthorized,
    /// The withdrawal asks for more than `raised_amount`.
    InsufficientFunds,
    /// The value-transfer primitive failed; its reason is carried unchanged.
    TransferFailed(TransferError),
    /// A counter update would overflow its fixed-width field.
    ArithmeticOverflow,
}

} // verus!
