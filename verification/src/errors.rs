//! Error taxonomy of the engine.
//!
//! Every error is terminal for the operation that raised it: callers abort
//! with no partial state written.

use vstd::prelude::*;

verus! {

/// Why an operation was refused. Validation errors come before any mutation;
/// arithmetic errors abort with no partial write; slippage errors abort before
/// mutation; commitment errors abort before any bin is touched.
#[derive(Clone, Copy, Debug, PartialEq, Eq, Structural)]
pub enum DloomError {
    /// A swap or deposit amount was zero.
    ZeroAmount,
    /// A liquidity amount was zero.
    ZeroLiquidity,
    /// A pool or position lacks the liquidity the operation needs.
    InsufficientLiquidity,
    /// A swap met an empty reserve or ran past the committed bin set.
    InsufficientLiquidityForSwap,
    /// A checked widened arithmetic step overflowed or divided by zero.
    MathOverflow,
    /// A computed result fell short of the caller's declared bound.
    SlippageExceeded,
    /// A fee or share field exceeded the basis-point whole.
    InvalidFeeRates,
    /// Protocol and referrer shares together exceeded the whole.
    FeeShareExceedsTotal,
    /// A bin step of zero was supplied.
    InvalidBinStep,
    /// A bin range had its bounds out of order.
    InvalidBinRange,
    /// A bin id was not aligned to the pool's bin step.
    InvalidBinId,
    /// A position range covered more bins than allowed.
    RangeTooWide,
    /// A (bin step, fee rate) pair is not on the admission list.
    InvalidParameters,
    /// The committed bin set does not match what the operation needs.
    BinCacheMismatch,
    /// The position still holds liquidity.
    PositionNotEmpty,
    /// The fee preference does not allow the requested settlement mode.
    InvalidFeePreference,
    /// The automatic fee recomputation cooldown has not elapsed.
    UpdateNotNeeded,
}

} // verus!
