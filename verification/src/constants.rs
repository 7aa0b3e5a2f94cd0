//! Protocol-wide numeric constants.

use vstd::prelude::*;

verus! {

/// One whole in basis points: every fee and share field is a fraction of this.
pub const BASIS_POINT_MAX: u128 = 10000;

/// Fixed-point scale for prices and per-unit fee-growth accumulators.
pub const PRECISION: u128 = 1_000_000_000;

/// Widest bin range a single position may cover, counted in covered bins.
pub const MAX_BINS_PER_POSITION: i32 = 70;

/// Minimum elapsed time between two automatic fee recomputations.
pub const FEE_UPDATE_COOLDOWN: i64 = 3600;

/// Base fee rate, in basis points, of the automatic fee formula.
pub const BASE_FEE_RATE: u16 = 10;

/// Cap, in basis points, on the volatility-driven part of the automatic fee.
pub const MAX_DYNAMIC_FEE_RATE: u16 = 90;

} // verus!
