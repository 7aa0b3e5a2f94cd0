//! Pool creation, parameter admission lists and the dynamic fee
//! controller of the discretized pool.

use vstd::prelude::*;
use vstd::arithmetic::div_mod::lemma_div_pos_is_pos;

use crate::constants::{BASE_FEE_RATE, BASIS_POINT_MAX, FEE_UPDATE_COOLDOWN, MAX_DYNAMIC_FEE_RATE};
use crate::errors::DloomError;
use crate::dlmm::state::{
    DlmmParameter, DlmmParameters, DlmmPool, ParameterAction, ParameterList, PoolType,
};

verus! {

/// Builds the admission lists that gate pool creation.
pub fn initialize_dlmm_parameters(
    official_params: Vec<DlmmParameter>,
    community_params: Vec<DlmmParameter>,
) -> (r: DlmmParameters)
    ensures
        r.official_parameters@ == official_params@,
        r.community_parameters@ == community_params@,
{
    DlmmParameters { official_parameters: official_params, community_parameters: community_params }
}

/// Whether the list admits the pair.
pub open spec fn spec_admits(list: Seq<DlmmParameter>, p: DlmmParameter) -> bool {
    list.contains(p)
}

/// Linear scan for a pair on an admission list.
fn list_contains(list: &Vec<DlmmParameter>, p: DlmmParameter) -> (r: bool)
    ensures
        r == spec_admits(list@, p),
{
    let mut i: usize = 0;
    while i < list.len()
        invariant
            i <= list@.len(),
            forall|j: int| 0 <= j < i ==> list@[j] != p,
        decreases list@.len() - i,
    {
        if list[i] == p {
            assert(list@.contains(p));
            return true;
        }
        i = i + 1;
    }
    assert(!list@.contains(p));
    false
}

/// Applies one admission-list change: Add appends the pair unless it is
/// already present, Remove strikes every occurrence.
pub fn update_dlmm_parameters(
    params: &mut DlmmParameters,
    list: ParameterList,
    action: ParameterAction,
    bin_step: u16,
    fee_rate: u16,
)
    ensures
        ({
            let p = DlmmParameter { bin_step, fee_rate };
            let before = if list == ParameterList::Official {
                old(params).official_parameters@
            } else {
                old(params).community_parameters@
            };
            let after = if list == ParameterList::Official {
                final(params).official_parameters@
            } else {
                final(params).community_parameters@
            };
            let untouched_before = if list == ParameterList::Official {
                old(params).community_parameters@
            } else {
                old(params).official_parameters@
            };
            let untouched_after = if list == ParameterList::Official {
                final(params).community_parameters@
            } else {
                final(params).official_parameters@
            };
            &&& untouched_after == untouched_before
            &&& (action == ParameterAction::Add ==> after == (if spec_admits(before, p) {
                before
            } else {
                before.push(p)
            }))
            &&& (action == ParameterAction::Remove ==> after == before.filter(
                |x: DlmmParameter| x != p,
            ))
        }),
{
    let new_param = DlmmParameter { bin_step, fee_rate };
    match list {
        ParameterList::Official => {
            match action {
                ParameterAction::Add => {
                    if !list_contains(&params.official_parameters, new_param) {
                        params.official_parameters.push(new_param);
                    }
                },
                ParameterAction::Remove => {
                    let filtered = list_without(&params.official_parameters, new_param);
                    params.official_parameters = filtered;
                },
            }
        },
        ParameterList::Community => {
            match action {
                ParameterAction::Add => {
                    if !list_contains(&params.community_parameters, new_param) {
                        params.community_parameters.push(new_param);
                    }
                },
                ParameterAction::Remove => {
                    let filtered = list_without(&params.community_parameters, new_param);
                    params.community_parameters = filtered;
                },
            }
        },
    }
}

/// Copy of a list with every occurrence of the pair struck.
fn list_without(list: &Vec<DlmmParameter>, p: DlmmParameter) -> (r: Vec<DlmmParameter>)
    ensures
        r@ == list@.filter(|x: DlmmParameter| x != p),
{
    let mut kept: Vec<DlmmParameter> = Vec::new();
    let mut i: usize = 0;
    proof {
        assert(list@.take(0int).filter(|x: DlmmParameter| x != p) =~= Seq::<
            DlmmParameter,
        >::empty());
    }
    while i < list.len()
        invariant
            i <= list@.len(),
            kept@ == list@.take(i as int).filter(|x: DlmmParameter| x != p),
        decreases list@.len() - i,
    {
        let item = list[i];
        proof {
            assert(list@.take(i as int + 1).drop_last() =~= list@.take(i as int));
            reveal_with_fuel(Seq::filter, 2);
        }
        if !(item == p) {
            kept.push(item);
        }
        i = i + 1;
    }
    proof {
        assert(list@.take(list@.len() as int) =~= list@);
    }
    kept
}

/// Validates the admission and fee parameters of a new discretized pool
/// and returns its initial state against the given admission list.
fn create_pool_of_type(
    list: &Vec<DlmmParameter>,
    pool_type: PoolType,
    bin_step: u16,
    fee_rate: u16,
    protocol_fee_share: u16,
    referrer_fee_share: u16,
    initial_bin_id: i32,
    now: i64,
) -> (r: Result<DlmmPool, DloomError>)
    ensures
        !spec_admits(list@, DlmmParameter { bin_step, fee_rate }) ==> r == Err::<
            DlmmPool,
            DloomError,
        >(DloomError::InvalidParameters),
        spec_admits(list@, DlmmParameter { bin_step, fee_rate }) && (protocol_fee_share
            > BASIS_POINT_MAX || referrer_fee_share > BASIS_POINT_MAX) ==> r == Err::<
            DlmmPool,
            DloomError,
        >(DloomError::InvalidFeeRates),
        spec_admits(list@, DlmmParameter { bin_step, fee_rate }) && protocol_fee_share
            <= BASIS_POINT_MAX && referrer_fee_share <= BASIS_POINT_MAX && protocol_fee_share
            + referrer_fee_share > BASIS_POINT_MAX ==> r == Err::<DlmmPool, DloomError>(
            DloomError::FeeShareExceedsTotal,
        ),
        spec_admits(list@, DlmmParameter { bin_step, fee_rate }) && protocol_fee_share
            <= BASIS_POINT_MAX && referrer_fee_share <= BASIS_POINT_MAX && protocol_fee_share
            + referrer_fee_share <= BASIS_POINT_MAX && bin_step == 0 ==> r == Err::<
            DlmmPool,
            DloomError,
        >(DloomError::InvalidBinStep),
        spec_admits(list@, DlmmParameter { bin_step, fee_rate }) && protocol_fee_share
            <= BASIS_POINT_MAX && referrer_fee_share <= BASIS_POINT_MAX && protocol_fee_share
            + referrer_fee_share <= BASIS_POINT_MAX && bin_step > 0 && fee_rate
            <= BASIS_POINT_MAX ==> (r matches Ok(pool) && pool == (DlmmPool {
            pool_type,
            active_bin_id: initial_bin_id,
            bin_step,
            fee_rate,
            protocol_fee_share,
            referrer_fee_share,
            volatility_accumulator: 0,
            last_fee_update_timestamp: now,
            reserves_a: 0,
            reserves_b: 0,
        }) && pool.wf()),
        spec_admits(list@, DlmmParameter { bin_step, fee_rate }) && protocol_fee_share
            <= BASIS_POINT_MAX && referrer_fee_share <= BASIS_POINT_MAX && protocol_fee_share
            + referrer_fee_share <= BASIS_POINT_MAX && bin_step > 0 && fee_rate
            > BASIS_POINT_MAX ==> r == Err::<DlmmPool, DloomError>(DloomError::InvalidFeeRates),
{
    if !list_contains(list, DlmmParameter { bin_step, fee_rate }) {
        return Err(DloomError::InvalidParameters);
    }
    if !(protocol_fee_share as u128 <= BASIS_POINT_MAX) {
        return Err(DloomError::InvalidFeeRates);
    }
    if !(referrer_fee_share as u128 <= BASIS_POINT_MAX) {
        return Err(DloomError::InvalidFeeRates);
    }
    if !(protocol_fee_share as u128 + referrer_fee_share as u128 <= BASIS_POINT_MAX) {
        return Err(DloomError::FeeShareExceedsTotal);
    }
    if bin_step == 0 {
        return Err(DloomError::InvalidBinStep);
    }
    if !(fee_rate as u128 <= BASIS_POINT_MAX) {
        return Err(DloomError::InvalidFeeRates);
    }
    Ok(
        DlmmPool {
            pool_type,
            active_bin_id: initial_bin_id,
            bin_step,
            fee_rate,
            protocol_fee_share,
            referrer_fee_share,
            volatility_accumulator: 0,
            last_fee_update_timestamp: now,
            reserves_a: 0,
            reserves_b: 0,
        },
    )
}

/// Creates an official pool: the (bin step, fee rate) pair must be on the
/// official admission list.
pub fn create_dlmm_pool(
    params: &DlmmParameters,
    bin_step: u16,
    fee_rate: u16,
    protocol_fee_share: u16,
    referrer_fee_share: u16,
    initial_bin_id: i32,
    now: i64,
) -> (r: Result<DlmmPool, DloomError>)
    ensures
        r matches Ok(pool) ==> pool.wf() && pool.pool_type == PoolType::Official
            && pool.active_bin_id == initial_bin_id && pool.bin_step == bin_step && pool.fee_rate
            == fee_rate && pool.reserves_a == 0 && pool.reserves_b == 0,
        !spec_admits(params.official_parameters@, DlmmParameter { bin_step, fee_rate }) ==> r
            == Err::<DlmmPool, DloomError>(DloomError::InvalidParameters),
        spec_admits(params.official_parameters@, DlmmParameter { bin_step, fee_rate })
            && protocol_fee_share <= BASIS_POINT_MAX && referrer_fee_share <= BASIS_POINT_MAX
            && protocol_fee_share + referrer_fee_share <= BASIS_POINT_MAX && bin_step > 0
            && fee_rate <= BASIS_POINT_MAX ==> r matches Ok(pool),
{
    create_pool_of_type(
        &params.official_parameters,
        PoolType::Official,
        bin_step,
        fee_rate,
        protocol_fee_share,
        referrer_fee_share,
        initial_bin_id,
        now,
    )
}

/// Creates a community pool: the (bin step, fee rate) pair must be on the
/// community admission list.
pub fn create_dlmm_community_pool(
    params: &DlmmParameters,
    bin_step: u16,
    fee_rate: u16,
    protocol_fee_share: u16,
    referrer_fee_share: u16,
    initial_bin_id: i32,
    now: i64,
) -> (r: Result<DlmmPool, DloomError>)
    ensures
        r matches Ok(pool) ==> pool.wf() && pool.pool_type == PoolType::Community
            && pool.active_bin_id == initial_bin_id && pool.bin_step == bin_step && pool.fee_rate
            == fee_rate && pool.reserves_a == 0 && pool.reserves_b == 0,
        !spec_admits(params.community_parameters@, DlmmParameter { bin_step, fee_rate }) ==> r
            == Err::<DlmmPool, DloomError>(DloomError::InvalidParameters),
        spec_admits(params.community_parameters@, DlmmParameter { bin_step, fee_rate })
            && protocol_fee_share <= BASIS_POINT_MAX && referrer_fee_share <= BASIS_POINT_MAX
            && protocol_fee_share + referrer_fee_share <= BASIS_POINT_MAX && bin_step > 0
            && fee_rate <= BASIS_POINT_MAX ==> r matches Ok(pool),
{
    create_pool_of_type(
        &params.community_parameters,
        PoolType::Community,
        bin_step,
        fee_rate,
        protocol_fee_share,
        referrer_fee_share,
        initial_bin_id,
        now,
    )
}

/// Fee rate the automatic formula computes: a base fee plus the
/// volatility-driven part, the latter capped at its own maximum, so the
/// whole never exceeds one hundred basis points.
pub open spec fn spec_auto_fee_rate(volatility_accumulator: u64, elapsed: int) -> int {
    let volatility = volatility_accumulator * 100 / elapsed;
    let dynamic: int = if volatility < MAX_DYNAMIC_FEE_RATE {
        volatility
    } else {
        MAX_DYNAMIC_FEE_RATE as int
    };
    BASE_FEE_RATE + dynamic
}

/// Recomputes the pool's fee rate.
///
/// A manual override applies the supplied rate verbatim; the automatic
/// path is gated by the cooldown and derives the rate from the volatility
/// the router accumulated. Either path resets the accumulator and stamps
/// the update time.
pub fn update_dlmm_fees(pool: &mut DlmmPool, new_fee_rate: Option<u16>, now: i64) -> (r: Result<
    (),
    DloomError,
>)
    requires
        old(pool).wf(),
        new_fee_rate matches Some(rate) ==> rate <= BASIS_POINT_MAX,
    ensures
        final(pool).wf(),
        new_fee_rate matches Some(rate) ==> r == Ok::<(), DloomError>(()) && *final(pool) == (
        DlmmPool {
            fee_rate: rate,
            volatility_accumulator: 0,
            last_fee_update_timestamp: now,
            ..*old(pool)
        }),
        new_fee_rate is None ==> {
            let elapsed = now - old(pool).last_fee_update_timestamp;
            if !(i64::MIN <= elapsed <= i64::MAX) {
                r == Err::<(), DloomError>(DloomError::MathOverflow) && *final(pool) == *old(pool)
            } else if !(elapsed > FEE_UPDATE_COOLDOWN) {
                r == Err::<(), DloomError>(DloomError::UpdateNotNeeded) && *final(pool) == *old(
                    pool,
                )
            } else {
                r == Ok::<(), DloomError>(()) && *final(pool) == (DlmmPool {
                    fee_rate: spec_auto_fee_rate(old(pool).volatility_accumulator, elapsed) as u16,
                    volatility_accumulator: 0,
                    last_fee_update_timestamp: now,
                    ..*old(pool)
                })
            }
        },
{
    match new_fee_rate {
        Some(manual_fee_rate) => {
            pool.fee_rate = manual_fee_rate;
        },
        None => {
            let time_elapsed = match now.checked_sub(pool.last_fee_update_timestamp) {
                Some(t) => t,
                None => {
                    return Err(DloomError::MathOverflow);
                },
            };
            if !(time_elapsed > FEE_UPDATE_COOLDOWN) {
                return Err(DloomError::UpdateNotNeeded);
            }

            let volatility = (pool.volatility_accumulator as u128) * 100 / (time_elapsed as u128);
            proof {
                lemma_div_pos_is_pos(
                    pool.volatility_accumulator as int * 100,
                    time_elapsed as int,
                );
            }
            // The cap comes before any narrowing, so a volatile market can
            // never wrap around to a low fee.
            let dynamic_fee: u16 = if volatility < MAX_DYNAMIC_FEE_RATE as u128 {
                volatility as u16
            } else {
                MAX_DYNAMIC_FEE_RATE
            };
            pool.fee_rate = BASE_FEE_RATE + dynamic_fee;
        },
    }

    pool.volatility_accumulator = 0;
    pool.last_fee_update_timestamp = now;
    Ok(())
}

} // verus!
