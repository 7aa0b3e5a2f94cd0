//! State records of the constant-product pool and its positions.
//!
//! The records hold the numeric accounting state only. Keys, vault addresses
//! and ownership are validated and stored by the host environment.

use vstd::prelude::*;

use crate::constants::BASIS_POINT_MAX;
use crate::errors::DloomError;

verus! {

/// State of a permissionless constant-product pool, following the
/// x * y = k model.
#[derive(Clone, Copy, Debug, PartialEq, Eq, Structural)]
pub struct AmmPool {
    /// Swap fee taken from every input amount, in basis points.
    pub fee_rate: u16,
    /// Share of the swap fee routed to the protocol, in basis points.
    pub protocol_fee_share: u16,
    /// Share of the protocol fee routed to a referrer, in basis points.
    pub referrer_fee_share: u16,
    /// Pool balance of token A.
    pub reserves_a: u64,
    /// Pool balance of token B.
    pub reserves_b: u64,
    /// Total fees of token A accrued per liquidity-pool token, fixed point.
    pub fee_growth_per_lp_token_a: u128,
    /// Total fees of token B accrued per liquidity-pool token, fixed point.
    pub fee_growth_per_lp_token_b: u128,
    /// Cumulative price of token A in terms of token B, oracle integral.
    pub price_a_cumulative: u128,
    /// Cumulative price of token B in terms of token A, oracle integral.
    pub price_b_cumulative: u128,
    /// Timestamp of the last update to the reserves and the oracle.
    pub last_update_timestamp: i64,
}

impl AmmPool {
    /// Basis-point fields stay inside the whole, and the fee shares
    /// together never exceed it.
    pub open spec fn wf(self) -> bool {
        &&& self.fee_rate <= BASIS_POINT_MAX
        &&& self.protocol_fee_share <= BASIS_POINT_MAX
        &&& self.referrer_fee_share <= BASIS_POINT_MAX
        &&& self.protocol_fee_share + self.referrer_fee_share <= BASIS_POINT_MAX
    }
}

/// How a position settles its pending fees.
#[derive(Clone, Copy, Debug, PartialEq, Eq, Structural)]
pub enum FeePreference {
    /// Pending fees are transferred out on claim.
    Claim,
    /// Pending fees are folded back into the position as a synthetic deposit.
    AutoCompound,
}

/// A liquidity provider's stake in a constant-product pool.
#[derive(Clone, Copy, Debug, PartialEq, Eq, Structural)]
pub struct AmmPosition {
    /// Liquidity-pool tokens attributed to this position.
    pub lp_token_amount: u64,
    /// Pool fee-growth accumulator for token A at the last interaction.
    pub fee_growth_snapshot_a: u128,
    /// Pool fee-growth accumulator for token B at the last interaction.
    pub fee_growth_snapshot_b: u128,
    /// Settlement mode chosen by the owner.
    pub fee_preference: FeePreference,
}

/// Validates the fee parameters of a new constant-product pool and returns
/// its initial state: empty reserves, zeroed accumulators, oracle unset.
pub fn create_amm_pool(
    fee_rate: u16,
    protocol_fee_share: u16,
    referrer_fee_share: u16,
) -> (r: Result<AmmPool, DloomError>)
    ensures
        fee_rate > BASIS_POINT_MAX || protocol_fee_share > BASIS_POINT_MAX
            || referrer_fee_share > BASIS_POINT_MAX ==> r == Err::<AmmPool, DloomError>(
            DloomError::InvalidFeeRates,
        ),
        fee_rate <= BASIS_POINT_MAX && protocol_fee_share <= BASIS_POINT_MAX
            && referrer_fee_share <= BASIS_POINT_MAX && protocol_fee_share + referrer_fee_share
            > BASIS_POINT_MAX ==> r == Err::<AmmPool, DloomError>(DloomError::FeeShareExceedsTotal),
        fee_rate <= BASIS_POINT_MAX && protocol_fee_share <= BASIS_POINT_MAX
            && referrer_fee_share <= BASIS_POINT_MAX && protocol_fee_share + referrer_fee_share
            <= BASIS_POINT_MAX ==> (r matches Ok(pool) && pool == (AmmPool {
            fee_rate,
            protocol_fee_share,
            referrer_fee_share,
            reserves_a: 0,
            reserves_b: 0,
            fee_growth_per_lp_token_a: 0,
            fee_growth_per_lp_token_b: 0,
            price_a_cumulative: 0,
            price_b_cumulative: 0,
            last_update_timestamp: 0,
        }) && pool.wf()),
{
    if !(fee_rate as u128 <= BASIS_POINT_MAX) {
        return Err(DloomError::InvalidFeeRates);
    }
    if !(protocol_fee_share as u128 <= BASIS_POINT_MAX) {
        return Err(DloomError::InvalidFeeRates);
    }
    if !(referrer_fee_share as u128 <= BASIS_POINT_MAX) {
        return Err(DloomError::InvalidFeeRates);
    }
    let total_fee_share = protocol_fee_share as u128 + referrer_fee_share as u128;
    if !(total_fee_share <= BASIS_POINT_MAX) {
        return Err(DloomError::FeeShareExceedsTotal);
    }
    Ok(
        AmmPool {
            fee_rate,
            protocol_fee_share,
            referrer_fee_share,
            reserves_a: 0,
            reserves_b: 0,
            fee_growth_per_lp_token_a: 0,
            fee_growth_per_lp_token_b: 0,
            price_a_cumulative: 0,
            price_b_cumulative: 0,
            last_update_timestamp: 0,
        },
    )
}

/// Opens a fresh position with no stake and the given settlement mode.
pub fn open_amm_position(fee_preference: FeePreference) -> (r: AmmPosition)
    ensures
        r == (AmmPosition {
            lp_token_amount: 0,
            fee_growth_snapshot_a: 0,
            fee_growth_snapshot_b: 0,
            fee_preference,
        }),
{
    AmmPosition { lp_token_amount: 0, fee_growth_snapshot_a: 0, fee_growth_snapshot_b: 0, fee_preference }
}

/// Replaces the settlement mode of a position.
pub fn update_fee_preference(position: &mut AmmPosition, new_preference: FeePreference)
    ensures
        *final(position) == (AmmPosition { fee_preference: new_preference, ..*old(position) }),
{
    position.fee_preference = new_preference;
}

} // verus!
