use vstd::prelude::*;

verus! {

/// Why a token transfer was refused.
#[derive(Clone, Copy, Debug, PartialEq, Eq)]
pub enum TransferError {
    /// The source account holds less than the amount.
    InsufficientFunds,
    /// The authority is not the owner of the source account.
    Unauthorized,
    /// The destination balance would not fit in a `u64`.
    Overflow,
}

/// Why a swap was aborted.
#[derive(Clone, Copy, Debug, PartialEq, Eq)]
pub enum SwapError {
    /// The input amount is zero.
    InvalidAmount,
    /// Swaps are disabled on this pool.
    PoolLocked,
    /// The quoted output is below the caller's floor.
    SlippageExceeded,
    /// An intermediate value left the safe numeric range.
    ArithmeticOverflow,
    /// A reserve the trade depends on is empty.
    InsufficientLiquidity,
    /// An account does not belong to the pool or the user it should.
    RelationshipMismatch,
    /// A token leg was refused.
    TransferFailure(TransferError),
}

} // verus!
