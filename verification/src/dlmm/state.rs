//! State records of the discretized liquidity pool, its bins and positions.
//!
//! Bins are sparse: a record exists only once liquidity was first deposited
//! into its id. The host materializes and addresses the records; the engine
//! works on the numeric state alone.

use vstd::prelude::*;

use crate::constants::BASIS_POINT_MAX;

verus! {

/// Distinguishes official pools from community-created ones.
#[derive(Clone, Copy, Debug, PartialEq, Eq, Structural)]
pub enum PoolType {
    Official,
    Community,
}

impl core::default::Default for PoolType {
    /// A pool is official unless created through the community path.
    fn default() -> (r: Self)
        ensures
            r == PoolType::Official,
    {
        PoolType::Official
    }
}

/// State of a discretized liquidity market maker pool.
#[derive(Clone, Copy, Debug, PartialEq, Eq, Structural)]
pub struct DlmmPool {
    /// Whether the pool was created by the protocol or by the community.
    pub pool_type: PoolType,
    /// Id of the bin straddling both assets, marking the current price.
    pub active_bin_id: i32,
    /// Geometric spacing of consecutive bins, in basis points.
    pub bin_step: u16,
    /// Swap fee taken from every input chunk, in basis points.
    pub fee_rate: u16,
    /// Share of the swap fee routed to the protocol, in basis points.
    pub protocol_fee_share: u16,
    /// Share of the protocol fee routed to a referrer, in basis points.
    pub referrer_fee_share: u16,
    /// Bins crossed by swaps since the last fee update, the volatility input.
    pub volatility_accumulator: u64,
    /// Timestamp of the last dynamic fee update.
    pub last_fee_update_timestamp: i64,
    /// Pool balance of token A.
    pub reserves_a: u64,
    /// Pool balance of token B.
    pub reserves_b: u64,
}

impl DlmmPool {
    /// Basis-point fields stay inside the whole, the fee shares together
    /// never exceed it, and the bin step is positive.
    pub open spec fn wf(self) -> bool {
        &&& self.bin_step > 0
        &&& self.fee_rate <= BASIS_POINT_MAX
        &&& self.protocol_fee_share <= BASIS_POINT_MAX
        &&& self.referrer_fee_share <= BASIS_POINT_MAX
        &&& self.protocol_fee_share + self.referrer_fee_share <= BASIS_POINT_MAX
    }
}

/// One price bin: a fixed-price linear market with its own liquidity and
/// fee-growth state.
#[derive(Clone, Copy, Debug, PartialEq, Eq, Structural)]
pub struct Bin {
    /// Liquidity deposited into this bin, in A-equivalent units.
    pub liquidity: u128,
    /// Fees of token A accrued per liquidity unit, fixed point.
    pub fee_growth_per_unit_a: u128,
    /// Fees of token B accrued per liquidity unit, fixed point.
    pub fee_growth_per_unit_b: u128,
}

/// A liquidity provider's stake across an inclusive, step-aligned bin range.
#[derive(Clone, Copy, Debug, PartialEq, Eq, Structural)]
pub struct Position {
    /// Lowest bin id the position covers.
    pub lower_bin_id: i32,
    /// Highest bin id the position covers.
    pub upper_bin_id: i32,
    /// Total liquidity of the position, spread evenly over its bins.
    pub liquidity: u128,
    /// Highest per-unit fee growth of token A seen at the last interaction.
    pub fee_growth_snapshot_a: u128,
    /// Highest per-unit fee growth of token B seen at the last interaction.
    pub fee_growth_snapshot_b: u128,
}

impl Position {
    /// The bin range is ordered.
    pub open spec fn wf(self) -> bool {
        self.lower_bin_id <= self.upper_bin_id
    }
}

/// What a parameter-list update does.
#[derive(Clone, Copy, Debug, PartialEq, Eq, Structural)]
pub enum ParameterAction {
    /// Admit the pair, unless it is already on the list.
    Add,
    /// Strike every occurrence of the pair from the list.
    Remove,
}

/// Which admission list a parameter update addresses.
#[derive(Clone, Copy, Debug, PartialEq, Eq, Structural)]
pub enum ParameterList {
    /// The list gating official pools.
    Official,
    /// The list gating community pools.
    Community,
}

/// One admitted (bin step, fee rate) pairing for pool creation.
#[derive(Clone, Copy, Debug, PartialEq, Eq, Structural)]
pub struct DlmmParameter {
    /// Bin step of the admitted pool category, in basis points.
    pub bin_step: u16,
    /// Fee rate of the admitted pool category, in basis points.
    pub fee_rate: u16,
}

/// Admission lists gating pool creation: a pool may only be created with a
/// (bin step, fee rate) pair present on the list for its category.
#[derive(Clone, Debug)]
pub struct DlmmParameters {
    /// Pairs admitted for official pools.
    pub official_parameters: Vec<DlmmParameter>,
    /// Pairs admitted for community pools.
    pub community_parameters: Vec<DlmmParameter>,
}

} // verus!
