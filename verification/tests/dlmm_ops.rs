use dloom_flow::dlmm::admin::{
    create_dlmm_community_pool, create_dlmm_pool, initialize_dlmm_parameters,
    update_dlmm_fees, update_dlmm_parameters,
};
use dloom_flow::dlmm::ops::{dlmm_swap, swap_a_to_b, swap_b_to_a};
use dloom_flow::dlmm::provision::{
    dlmm_add_liquidity, dlmm_modify_liquidity, dlmm_open_position, dlmm_remove_liquidity,
};
use dloom_flow::dlmm::state::{
    Bin, DlmmParameter, DlmmPool, ParameterAction, ParameterList, PoolType, Position,
};
use dloom_flow::errors::DloomError;

const PRECISION: u128 = 1_000_000_000;

fn pool(bin_step: u16, active_bin_id: i32, fee_rate: u16, protocol_fee_share: u16) -> DlmmPool {
    DlmmPool {
        pool_type: PoolType::Official,
        active_bin_id,
        bin_step,
        fee_rate,
        protocol_fee_share,
        referrer_fee_share: 0,
        volatility_accumulator: 0,
        last_fee_update_timestamp: 0,
        reserves_a: 1_000_000,
        reserves_b: 1_000_000,
    }
}

fn bin(liquidity: u128) -> Bin {
    Bin { liquidity, fee_growth_per_unit_a: 0, fee_growth_per_unit_b: 0 }
}

fn position(lower: i32, upper: i32, liquidity: u128) -> Position {
    Position {
        lower_bin_id: lower,
        upper_bin_id: upper,
        liquidity,
        fee_growth_snapshot_a: 0,
        fee_growth_snapshot_b: 0,
    }
}

#[test]
fn router_fills_from_one_bin_at_par() {
    // At the origin bin the price equals the scale, so amounts convert
    // one to one; with no fee the whole input converts.
    let p = pool(1, 0, 0, 0);
    let mut bins = vec![bin(PRECISION)];
    let (out, pfee, end_id) = swap_a_to_b(&p, 1_000, &mut bins).unwrap();
    assert_eq!(out, 1_000);
    assert_eq!(pfee, 0);
    assert_eq!(end_id, -1);
    // The consumed input joined the bin's liquidity.
    assert_eq!(bins[0].liquidity, PRECISION + 1_000);
}

#[test]
fn router_takes_fee_per_chunk_and_accrues_growth() {
    // 100 bps fee, half of it protocol: 10_000 in leaves a 100-unit fee,
    // 50 of it protocol, 50 lp, and the lp part bumps the bin's growth.
    let p = pool(1, 0, 100, 5000);
    let mut bins = vec![bin(PRECISION)];
    let (out, pfee, end_id) = swap_a_to_b(&p, 10_000, &mut bins).unwrap();
    assert_eq!(pfee, 50);
    assert_eq!(out, 9_900);
    assert_eq!(end_id, -1);
    assert_eq!(bins[0].fee_growth_per_unit_b, 50 * PRECISION / PRECISION);
    assert_eq!(bins[0].liquidity, PRECISION + 9_900);
}

#[test]
fn router_walks_upward_for_b_to_a() {
    let p = pool(1, 0, 0, 0);
    let mut bins = vec![bin(PRECISION)];
    let (out, pfee, end_id) = swap_b_to_a(&p, 500, &mut bins).unwrap();
    assert_eq!(out, 500);
    assert_eq!(pfee, 0);
    assert_eq!(end_id, 1);
    // The output left the bin's liquidity.
    assert_eq!(bins[0].liquidity, PRECISION - 500);
}

#[test]
fn router_spans_bins_when_one_is_too_small() {
    // The first bin offers only 400 units of the counter asset; the rest
    // comes from the next bin down, at that bin's slightly lower price.
    let p = pool(1, 0, 0, 0);
    let mut bins = vec![bin(400), bin(10_000_000_000)];
    let (out, _, end_id) = swap_a_to_b(&p, 1_000_000_400, &mut bins).unwrap();
    assert_eq!(end_id, -2);
    // price(-1) = 10^18 / 1_000_100_000 = 999_900_009, so the remaining
    // 10^9 units buy 999_900_009 of the counter asset.
    assert_eq!(out, 400 + 999_900_009);
    assert_eq!(bins[0].liquidity, 800);
    assert_eq!(bins[1].liquidity, 10_000_000_000 + 1_000_000_000);
}

#[test]
fn router_fails_closed_when_the_commitment_runs_out() {
    let p = pool(1, 0, 0, 0);
    let mut bins = vec![bin(400)];
    let before = bins.clone();
    assert_eq!(
        swap_a_to_b(&p, 1_000, &mut bins),
        Err(DloomError::InsufficientLiquidityForSwap)
    );
    assert_eq!(bins[0].liquidity, before[0].liquidity);
}

#[test]
fn router_skips_empty_bins() {
    let p = pool(1, 0, 0, 0);
    let mut bins = vec![bin(0), bin(10_000_000_000)];
    let (out, _, end_id) = swap_a_to_b(&p, 1_000_000_000, &mut bins).unwrap();
    assert_eq!(out, 999_900_009);
    assert_eq!(end_id, -2);
    assert_eq!(bins[0].liquidity, 0);
}

#[test]
fn swap_moves_active_bin_and_bumps_volatility() {
    let mut p = pool(1, 0, 0, 0);
    let mut bins = vec![bin(PRECISION)];
    let (out, pfee) = dlmm_swap(&mut p, &mut bins, 1_000, 0, true).unwrap();
    assert_eq!(out, 1_000);
    assert_eq!(pfee, 0);
    assert_eq!(p.active_bin_id, -1);
    assert_eq!(p.volatility_accumulator, 1);
    assert_eq!(p.reserves_a, 1_001_000);
    assert_eq!(p.reserves_b, 999_000);
}

#[test]
fn dlmm_swap_respects_slippage_bound() {
    let mut p = pool(1, 0, 0, 0);
    let mut bins = vec![bin(PRECISION)];
    let before = bins.clone();
    assert_eq!(
        dlmm_swap(&mut p, &mut bins, 1_000, 1_001, true),
        Err(DloomError::SlippageExceeded)
    );
    assert_eq!(p.active_bin_id, 0);
    assert_eq!(bins[0].liquidity, before[0].liquidity);
}

#[test]
fn open_position_validates_the_range() {
    let p = pool(20, 0, 0, 0);
    assert_eq!(
        dlmm_open_position(&p, 100, 100),
        Err(DloomError::InvalidBinRange)
    );
    assert_eq!(
        dlmm_open_position(&p, 100, 0),
        Err(DloomError::InvalidBinRange)
    );
    assert_eq!(
        dlmm_open_position(&p, 0, 30),
        Err(DloomError::InvalidBinId)
    );
    assert_eq!(
        dlmm_open_position(&p, 10, 40),
        Err(DloomError::InvalidBinId)
    );
    let narrow = pool(1, 0, 0, 0);
    assert_eq!(
        dlmm_open_position(&narrow, 0, 100),
        Err(DloomError::RangeTooWide)
    );
    let opened = dlmm_open_position(&p, -40, 40).unwrap();
    assert_eq!(opened.lower_bin_id, -40);
    assert_eq!(opened.upper_bin_id, 40);
    assert_eq!(opened.liquidity, 0);
}

#[test]
fn open_position_accepts_negative_aligned_bounds() {
    let p = pool(20, 0, 0, 0);
    let opened = dlmm_open_position(&p, -100, -20).unwrap();
    assert_eq!(opened.lower_bin_id, -100);
}

#[test]
fn add_liquidity_splits_evenly_and_tracks_reserves() {
    // Two bins at 0 and 10, both above the active bin at -20: the whole
    // requirement is asset A.
    let mut p = pool(10, -20, 0, 0);
    let mut pos = position(0, 10, 0);
    let mut bins = vec![bin(0), bin(0)];
    let (req_a, req_b) = dlmm_add_liquidity(&mut p, &mut pos, &mut bins, 1_000).unwrap();
    assert_eq!((req_a, req_b), (1_000, 0));
    assert_eq!(bins[0].liquidity, 500);
    assert_eq!(bins[1].liquidity, 500);
    assert_eq!(pos.liquidity, 1_000);
    assert_eq!(p.reserves_a, 1_001_000);
    assert_eq!(p.reserves_b, 1_000_000);
}

#[test]
fn add_liquidity_rejects_a_wrong_commitment() {
    let mut p = pool(10, -20, 0, 0);
    let mut pos = position(0, 10, 0);
    let mut bins = vec![bin(0)];
    assert_eq!(
        dlmm_add_liquidity(&mut p, &mut pos, &mut bins, 1_000),
        Err(DloomError::BinCacheMismatch)
    );
}

#[test]
fn add_liquidity_rejects_zero() {
    let mut p = pool(10, -20, 0, 0);
    let mut pos = position(0, 10, 0);
    let mut bins = vec![bin(0), bin(0)];
    assert_eq!(
        dlmm_add_liquidity(&mut p, &mut pos, &mut bins, 0),
        Err(DloomError::ZeroLiquidity)
    );
}

#[test]
fn remove_liquidity_claims_principal_and_fees() {
    let mut p = pool(10, -20, 0, 0);
    let mut pos = position(0, 10, 1_000);
    // Each bin accrued one unit of A-fee per liquidity unit.
    let fee_bin = Bin {
        liquidity: 500,
        fee_growth_per_unit_a: PRECISION,
        fee_growth_per_unit_b: 0,
    };
    let bins = vec![fee_bin, fee_bin];
    let (got_a, got_b) = dlmm_remove_liquidity(&mut p, &mut pos, &bins, 1_000, 0, 0).unwrap();
    // Principal 1_000 of A plus 1_000 * 1 of fee per bin, twice.
    assert_eq!(got_a, 1_000 + 2 * 1_000);
    assert_eq!(got_b, 0);
    assert_eq!(pos.liquidity, 0);
    assert_eq!(pos.fee_growth_snapshot_a, PRECISION);
    assert_eq!(p.reserves_a, 1_000_000 - 3_000);
}

#[test]
fn remove_liquidity_rejects_zero_and_excess() {
    let mut p = pool(10, -20, 0, 0);
    let mut pos = position(0, 10, 100);
    let bins = vec![bin(50), bin(50)];
    assert_eq!(
        dlmm_remove_liquidity(&mut p, &mut pos, &bins, 0, 0, 0),
        Err(DloomError::ZeroLiquidity)
    );
    assert_eq!(
        dlmm_remove_liquidity(&mut p, &mut pos, &bins, 101, 0, 0),
        Err(DloomError::InsufficientLiquidity)
    );
}

#[test]
fn dlmm_remove_respects_minimums() {
    let mut p = pool(10, -20, 0, 0);
    let mut pos = position(0, 10, 1_000);
    let bins = vec![bin(500), bin(500)];
    assert_eq!(
        dlmm_remove_liquidity(&mut p, &mut pos, &bins, 1_000, 1_001, 0),
        Err(DloomError::SlippageExceeded)
    );
    assert_eq!(pos.liquidity, 1_000);
}

#[test]
fn migration_rebalances_within_owned_value() {
    // Both ranges sit above the active bin, so value moves one to one:
    // the old range releases exactly what the new range requires.
    let mut p = pool(10, -20, 0, 0);
    let mut old_pos = position(0, 10, 1_000);
    let mut new_pos = position(20, 30, 0);
    let mut old_bins = vec![bin(500), bin(500)];
    let mut new_bins = vec![bin(0), bin(0)];
    let (sa, sb) = dlmm_modify_liquidity(
        &mut p,
        &mut old_pos,
        &mut new_pos,
        &mut old_bins,
        &mut new_bins,
        0,
        0,
    )
    .unwrap();
    assert_eq!((sa, sb), (0, 0));
    assert_eq!(old_pos.liquidity, 0);
    assert_eq!(new_pos.liquidity, 1_000);
    assert_eq!(old_bins[0].liquidity, 0);
    assert_eq!(new_bins[0].liquidity, 500);
    assert_eq!(p.reserves_a, 1_000_000);
}

#[test]
fn migration_fails_rather_than_running_a_deficit() {
    // The new range sits below the active bin, so it needs B while the
    // old range only releases A: the checked subtraction aborts.
    let mut p = pool(10, 100, 0, 0);
    let mut old_pos = position(110, 120, 1_000);
    let mut new_pos = position(0, 10, 0);
    let mut old_bins = vec![bin(500), bin(500)];
    let mut new_bins = vec![bin(0), bin(0)];
    assert_eq!(
        dlmm_modify_liquidity(
            &mut p,
            &mut old_pos,
            &mut new_pos,
            &mut old_bins,
            &mut new_bins,
            0,
            0,
        ),
        Err(DloomError::MathOverflow)
    );
    assert_eq!(old_pos.liquidity, 1_000);
    assert_eq!(old_bins[0].liquidity, 500);
}

#[test]
fn migration_requires_a_funded_source() {
    let mut p = pool(10, -20, 0, 0);
    let mut old_pos = position(0, 10, 0);
    let mut new_pos = position(20, 30, 0);
    let mut old_bins = vec![bin(0), bin(0)];
    let mut new_bins = vec![bin(0), bin(0)];
    assert_eq!(
        dlmm_modify_liquidity(
            &mut p,
            &mut old_pos,
            &mut new_pos,
            &mut old_bins,
            &mut new_bins,
            0,
            0,
        ),
        Err(DloomError::PositionNotEmpty)
    );
}

#[test]
fn manual_fee_update_applies_verbatim_and_resets() {
    let mut p = pool(10, 0, 30, 0);
    p.volatility_accumulator = 77;
    update_dlmm_fees(&mut p, Some(55), 9_999).unwrap();
    assert_eq!(p.fee_rate, 55);
    assert_eq!(p.volatility_accumulator, 0);
    assert_eq!(p.last_fee_update_timestamp, 9_999);
}

#[test]
fn automatic_fee_update_is_gated_by_the_cooldown() {
    let mut p = pool(10, 0, 30, 0);
    p.last_fee_update_timestamp = 1_000;
    assert_eq!(
        update_dlmm_fees(&mut p, None, 4_600),
        Err(DloomError::UpdateNotNeeded)
    );
    assert_eq!(p.fee_rate, 30);
}

#[test]
fn automatic_fee_update_derives_from_volatility() {
    // volatility = 2_000 * 100 / 4_000 = 50, under the 90 bps cap:
    // fee = 10 + 50.
    let mut p = pool(10, 0, 30, 0);
    p.volatility_accumulator = 2_000;
    update_dlmm_fees(&mut p, None, 4_000).unwrap();
    assert_eq!(p.fee_rate, 60);
    assert_eq!(p.volatility_accumulator, 0);

    // A volatile market caps at 10 + 90 = 100 bps.
    let mut hot = pool(10, 0, 30, 0);
    hot.volatility_accumulator = 80_000;
    update_dlmm_fees(&mut hot, None, 4_000).unwrap();
    assert_eq!(hot.fee_rate, 100);
}

#[test]
fn parameter_lists_admit_and_strike_pairs() {
    let mut params = initialize_dlmm_parameters(Vec::new(), Vec::new());
    let pair = DlmmParameter { bin_step: 20, fee_rate: 30 };
    update_dlmm_parameters(&mut params, ParameterList::Community, ParameterAction::Add, 20, 30);
    assert_eq!(params.community_parameters.len(), 1);
    // Adding the same pair again is a no-op.
    update_dlmm_parameters(&mut params, ParameterList::Community, ParameterAction::Add, 20, 30);
    assert_eq!(params.community_parameters.len(), 1);
    assert_eq!(params.community_parameters[0], pair);
    assert_eq!(params.official_parameters.len(), 0);
    update_dlmm_parameters(&mut params, ParameterList::Community, ParameterAction::Remove, 20, 30);
    assert_eq!(params.community_parameters.len(), 0);
}

#[test]
fn community_pool_creation_is_gated_by_the_list() {
    let mut params = initialize_dlmm_parameters(Vec::new(), Vec::new());
    update_dlmm_parameters(&mut params, ParameterList::Community, ParameterAction::Add, 20, 30);
    assert_eq!(
        create_dlmm_community_pool(&params, 25, 30, 0, 0, 0, 100),
        Err(DloomError::InvalidParameters)
    );
    let pool = create_dlmm_community_pool(&params, 20, 30, 5_000, 0, 7, 100).unwrap();
    assert_eq!(pool.pool_type, PoolType::Community);
    assert_eq!(pool.bin_step, 20);
    assert_eq!(pool.fee_rate, 30);
    assert_eq!(pool.active_bin_id, 7);
    assert_eq!(pool.last_fee_update_timestamp, 100);
}

#[test]
fn official_pool_creation_uses_its_own_list() {
    let mut params = initialize_dlmm_parameters(Vec::new(), Vec::new());
    update_dlmm_parameters(&mut params, ParameterList::Official, ParameterAction::Add, 20, 30);
    assert_eq!(
        create_dlmm_community_pool(&params, 20, 30, 0, 0, 0, 100),
        Err(DloomError::InvalidParameters)
    );
    let pool = create_dlmm_pool(&params, 20, 30, 0, 0, 0, 100).unwrap();
    assert_eq!(pool.pool_type, PoolType::Official);
}

#[test]
fn pool_creation_validates_fee_shares() {
    let mut params = initialize_dlmm_parameters(Vec::new(), Vec::new());
    update_dlmm_parameters(&mut params, ParameterList::Community, ParameterAction::Add, 20, 30);
    assert_eq!(
        create_dlmm_community_pool(&params, 20, 30, 10_001, 0, 0, 100),
        Err(DloomError::InvalidFeeRates)
    );
    assert_eq!(
        create_dlmm_community_pool(&params, 20, 30, 6_000, 6_000, 0, 100),
        Err(DloomError::FeeShareExceedsTotal)
    );
}

#[test]
fn pool_creation_rejects_a_zero_bin_step() {
    let mut params = initialize_dlmm_parameters(Vec::new(), Vec::new());
    update_dlmm_parameters(&mut params, ParameterList::Community, ParameterAction::Add, 0, 30);
    assert_eq!(
        create_dlmm_community_pool(&params, 0, 30, 0, 0, 0, 100),
        Err(DloomError::InvalidBinStep)
    );
}

#[test]
fn migration_respects_surplus_minimums() {
    let mut p = pool(10, -20, 0, 0);
    let mut old_pos = position(0, 10, 1_000);
    let mut new_pos = position(20, 30, 0);
    let mut old_bins = vec![bin(500), bin(500)];
    let mut new_bins = vec![bin(0), bin(0)];
    // The move is value-neutral, so demanding any surplus fails.
    assert_eq!(
        dlmm_modify_liquidity(
            &mut p,
            &mut old_pos,
            &mut new_pos,
            &mut old_bins,
            &mut new_bins,
            1,
            0,
        ),
        Err(DloomError::SlippageExceeded)
    );
    assert_eq!(old_pos.liquidity, 1_000);
    assert_eq!(new_pos.liquidity, 0);
}

#[test]
fn migration_rejects_a_wrong_commitment() {
    let mut p = pool(10, -20, 0, 0);
    let mut old_pos = position(0, 10, 1_000);
    let mut new_pos = position(20, 30, 0);
    let mut old_bins = vec![bin(500)];
    let mut new_bins = vec![bin(0), bin(0)];
    assert_eq!(
        dlmm_modify_liquidity(
            &mut p,
            &mut old_pos,
            &mut new_pos,
            &mut old_bins,
            &mut new_bins,
            0,
            0,
        ),
        Err(DloomError::BinCacheMismatch)
    );
}

#[test]
fn automatic_fee_update_caps_before_narrowing() {
    // volatility = 4_194_304 * 100 / 6_400 = 65_536: the cap applies to
    // the full quotient, so the fee pins at 10 + 90 rather than wrapping
    // a narrowed value down to the base fee.
    let mut p = pool(10, 0, 30, 0);
    p.volatility_accumulator = 4_194_304;
    update_dlmm_fees(&mut p, None, 6_400).unwrap();
    assert_eq!(p.fee_rate, 100);
}
