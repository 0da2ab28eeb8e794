use vstd::prelude::*;

verus! {

/// Why an operation on the pool was refused.
///
/// Every failure is reported as a value of this type; the engine never
/// aborts, and a failed operation leaves every ledger untouched.
#[derive(Clone, Copy, Debug, PartialEq, Eq, Structural)]
pub enum Error {
    /// A caller's balance on the asset ledger is below the amount a
    /// deposit or swap needs.
    InsufficientBalance,
    /// A caller's recorded stake is below the amount a withdrawal needs.
    InsufficientStake,
    /// The pool is in a degenerate state for the request: a ratio or a
    /// quote would divide by an empty reserve, or the configuration is
    /// unusable.
    InvalidPool,
    /// A swap would drain or overdraw the output reserve.
    InsufficientLiquidity,
    /// A checked addition or multiplication would exceed the largest
    /// representable amount.
    ArithmeticOverflow,
    /// A checked subtraction on a reserve would go below zero.
    ArithmeticUnderflow,
    /// The external asset ledger refused a transfer: the pool's custodial
    /// account does not hold what the records promise.
    ExternalTransferFailed,
    /// The caller could not be authenticated. The engine itself never
    /// raises this; the orchestration layer does, before it dispatches.
    Unauthenticated,
}

} // verus!
