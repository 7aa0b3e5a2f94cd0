use dloom_flow::amm::ops::{
    add_amm_liquidity, claim_lp_fees, reinvest_lp_fees, remove_amm_liquidity, swap_on_amm,
    update_oracle,
};
use dloom_flow::amm::state::{
    create_amm_pool, open_amm_position, update_fee_preference, AmmPool, FeePreference,
};
use dloom_flow::errors::DloomError;

const PRECISION: u128 = 1_000_000_000;

fn pool(fee_rate: u16, protocol_fee_share: u16, referrer_fee_share: u16, ra: u64, rb: u64) -> AmmPool {
    let mut p = create_amm_pool(fee_rate, protocol_fee_share, referrer_fee_share).unwrap();
    p.reserves_a = ra;
    p.reserves_b = rb;
    p
}

#[test]
fn oracle_first_call_records_timestamp_only() {
    let mut p = pool(0, 0, 0, 1_000_000, 2_000_000);
    update_oracle(&mut p, 500).unwrap();
    assert_eq!(p.last_update_timestamp, 500);
    assert_eq!(p.price_a_cumulative, 0);
    assert_eq!(p.price_b_cumulative, 0);
}

#[test]
fn oracle_integrates_price_times_elapsed() {
    let mut p = pool(0, 0, 0, 1_000_000, 2_000_000);
    update_oracle(&mut p, 100).unwrap();
    update_oracle(&mut p, 105).unwrap();
    // price_a = 2 * scale, price_b = scale / 2, integrated over 5 units.
    assert_eq!(p.price_a_cumulative, 2 * PRECISION * 5);
    assert_eq!(p.price_b_cumulative, PRECISION / 2 * 5);
    assert_eq!(p.last_update_timestamp, 105);
}

// Two updates at the same timestamp leave both cumulatives unchanged.
#[test]
fn oracle_same_timestamp_is_idempotent() {
    let mut p = pool(0, 0, 0, 1_000_000, 2_000_000);
    update_oracle(&mut p, 100).unwrap();
    update_oracle(&mut p, 105).unwrap();
    let before = p;
    update_oracle(&mut p, 105).unwrap();
    assert_eq!(p.price_a_cumulative, before.price_a_cumulative);
    assert_eq!(p.price_b_cumulative, before.price_b_cumulative);
    assert_eq!(p.last_update_timestamp, before.last_update_timestamp);
}

#[test]
fn oracle_skips_empty_reserves_but_advances_time() {
    let mut p = pool(0, 0, 0, 0, 2_000_000);
    update_oracle(&mut p, 100).unwrap();
    update_oracle(&mut p, 200).unwrap();
    assert_eq!(p.price_a_cumulative, 0);
    assert_eq!(p.price_b_cumulative, 0);
    assert_eq!(p.last_update_timestamp, 200);
}

#[test]
fn swap_updates_reserves_and_fee_growth() {
    // 100 bps fee, half to the protocol: 20_000 in gives 200 total fee,
    // 100 protocol, 100 lp; supply 1_000 grows the accumulator by
    // 100 * PRECISION / 1_000.
    let mut p = pool(100, 5000, 0, 1_000_000, 2_000_000);
    let outcome = swap_on_amm(&mut p, 1_000, 20_000, 0, true, false, 50).unwrap();
    assert_eq!(outcome.protocol_fee, 100);
    assert_eq!(outcome.referral_fee, 0);
    assert_eq!(outcome.lp_fee, 100);
    let net = 20_000u64 - 200;
    let expected_out = 2_000_000u64 * net / (1_000_000 + net);
    assert_eq!(outcome.amount_out, expected_out);
    assert_eq!(p.reserves_a, 1_000_000 + 20_000 - 100);
    assert_eq!(p.reserves_b, 2_000_000 - expected_out);
    assert_eq!(p.fee_growth_per_lp_token_a, 100 * PRECISION / 1_000);
    assert_eq!(p.fee_growth_per_lp_token_b, 0);
    assert_eq!(p.last_update_timestamp, 50);
}

#[test]
fn swap_respects_slippage_bound() {
    let mut p = pool(100, 5000, 0, 1_000_000, 2_000_000);
    let before = p;
    assert_eq!(
        swap_on_amm(&mut p, 1_000, 20_000, u64::MAX, true, false, 50),
        Err(DloomError::SlippageExceeded)
    );
    assert_eq!(p.reserves_a, before.reserves_a);
    assert_eq!(p.reserves_b, before.reserves_b);
    assert_eq!(p.last_update_timestamp, before.last_update_timestamp);
}

#[test]
fn swap_pays_the_referrer_from_the_protocol_cut() {
    // Protocol fee 100; referrer share 2000 bps of it is 20.
    let mut p = pool(100, 5000, 2000, 1_000_000, 2_000_000);
    let outcome = swap_on_amm(&mut p, 1_000, 20_000, 0, true, true, 50).unwrap();
    assert_eq!(outcome.referral_fee, 20);
    assert_eq!(outcome.protocol_fee, 80);
    assert_eq!(outcome.lp_fee, 100);
}

#[test]
fn swap_without_referrer_keeps_the_whole_protocol_cut() {
    let mut p = pool(100, 5000, 2000, 1_000_000, 2_000_000);
    let outcome = swap_on_amm(&mut p, 1_000, 20_000, 0, true, false, 50).unwrap();
    assert_eq!(outcome.referral_fee, 0);
    assert_eq!(outcome.protocol_fee, 100);
}

#[test]
fn swap_b_to_a_moves_the_other_way() {
    let mut p = pool(0, 0, 0, 1_000_000, 2_000_000);
    let outcome = swap_on_amm(&mut p, 0, 20_000, 0, false, false, 50).unwrap();
    let expected_out = 1_000_000u64 * 20_000 / (2_000_000 + 20_000);
    assert_eq!(outcome.amount_out, expected_out);
    assert_eq!(p.reserves_b, 2_000_000 + 20_000);
    assert_eq!(p.reserves_a, 1_000_000 - expected_out);
}

// Scenario: supply 1_000, lp fee 100 grows the accumulator by
// 100 * PRECISION / 1_000; a position holding 500 units since growth zero
// claims floor(growth * 500 / PRECISION) = 50.
#[test]
fn accrued_fee_claim_scenario() {
    let mut p = pool(100, 5000, 0, 1_000_000, 2_000_000);
    let mut position = open_amm_position(FeePreference::Claim);
    position.lp_token_amount = 500;
    swap_on_amm(&mut p, 1_000, 20_000, 0, true, false, 50).unwrap();
    assert_eq!(p.fee_growth_per_lp_token_a, 100_000_000);
    let (fees_a, fees_b) = claim_lp_fees(&p, &mut position).unwrap();
    assert_eq!(fees_a, 50);
    assert_eq!(fees_b, 0);
    assert_eq!(position.fee_growth_snapshot_a, p.fee_growth_per_lp_token_a);
    // A second claim right away finds nothing pending.
    let (again_a, again_b) = claim_lp_fees(&p, &mut position).unwrap();
    assert_eq!(again_a, 0);
    assert_eq!(again_b, 0);
}

#[test]
fn claim_requires_claim_preference() {
    let p = pool(0, 0, 0, 1_000, 1_000);
    let mut position = open_amm_position(FeePreference::AutoCompound);
    assert_eq!(
        claim_lp_fees(&p, &mut position),
        Err(DloomError::InvalidFeePreference)
    );
}

#[test]
fn update_fee_preference_switches_mode() {
    let mut position = open_amm_position(FeePreference::Claim);
    update_fee_preference(&mut position, FeePreference::AutoCompound);
    assert_eq!(position.fee_preference, FeePreference::AutoCompound);
}

#[test]
fn reinvest_requires_autocompound_preference() {
    let p = pool(0, 0, 0, 1_000, 1_000);
    let mut position = open_amm_position(FeePreference::Claim);
    assert_eq!(
        reinvest_lp_fees(&p, &mut position, 1_000),
        Err(DloomError::InvalidFeePreference)
    );
}

#[test]
fn reinvest_mints_from_pending_fees() {
    let mut p = pool(0, 0, 0, 1_000, 1_000);
    p.fee_growth_per_lp_token_a = 2 * PRECISION;
    p.fee_growth_per_lp_token_b = 2 * PRECISION;
    let mut position = open_amm_position(FeePreference::AutoCompound);
    position.lp_token_amount = 100;
    // Pending (200, 200) against reserves 1000:1000, supply 1000:
    // optimal_b = 200, lp = min(200, 200) * 1000 / 1000 = 200.
    let minted = reinvest_lp_fees(&p, &mut position, 1_000).unwrap();
    assert_eq!(minted, 200);
    assert_eq!(position.lp_token_amount, 300);
    assert_eq!(position.fee_growth_snapshot_a, 2 * PRECISION);
}

#[test]
fn reinvest_dust_is_a_noop_that_advances_snapshots() {
    let mut p = pool(0, 0, 0, 1_000_000, 1_000_000);
    p.fee_growth_per_lp_token_a = 1;
    let mut position = open_amm_position(FeePreference::AutoCompound);
    position.lp_token_amount = 100;
    // Pending fee floors to zero lp: the snapshot still advances and that
    // dust is forfeited.
    let minted = reinvest_lp_fees(&p, &mut position, 1_000).unwrap();
    assert_eq!(minted, 0);
    assert_eq!(position.lp_token_amount, 100);
    assert_eq!(position.fee_growth_snapshot_a, 1);
}

#[test]
fn add_liquidity_grows_reserves_and_position() {
    let mut p = pool(0, 0, 0, 1_000, 4_000);
    let mut position = open_amm_position(FeePreference::Claim);
    let (da, db, minted) = add_amm_liquidity(&mut p, &mut position, 100, 10, 50, 0, 7).unwrap();
    assert_eq!((da, db, minted), (10, 40, 1));
    assert_eq!(p.reserves_a, 1_010);
    assert_eq!(p.reserves_b, 4_040);
    assert_eq!(position.lp_token_amount, 1);
    assert_eq!(p.last_update_timestamp, 7);
}

#[test]
fn add_liquidity_respects_minimum_mint() {
    let mut p = pool(0, 0, 0, 1_000, 4_000);
    let mut position = open_amm_position(FeePreference::Claim);
    assert_eq!(
        add_amm_liquidity(&mut p, &mut position, 100, 10, 50, 2, 7),
        Err(DloomError::SlippageExceeded)
    );
    assert_eq!(p.reserves_a, 1_000);
    assert_eq!(position.lp_token_amount, 0);
}

#[test]
fn remove_liquidity_pays_pro_rata_and_burns() {
    let mut p = pool(0, 0, 0, 1_000_000, 2_000_000);
    let mut position = open_amm_position(FeePreference::Claim);
    position.lp_token_amount = 500;
    let (a, b) = remove_amm_liquidity(&mut p, &mut position, 1_000, 100, 0, 0, 9).unwrap();
    assert_eq!(a, 100_000);
    assert_eq!(b, 200_000);
    assert_eq!(p.reserves_a, 900_000);
    assert_eq!(p.reserves_b, 1_800_000);
    assert_eq!(position.lp_token_amount, 400);
}

#[test]
fn remove_liquidity_respects_minimums() {
    let mut p = pool(0, 0, 0, 1_000_000, 2_000_000);
    let mut position = open_amm_position(FeePreference::Claim);
    position.lp_token_amount = 500;
    assert_eq!(
        remove_amm_liquidity(&mut p, &mut position, 1_000, 100, 100_001, 0, 9),
        Err(DloomError::SlippageExceeded)
    );
    assert_eq!(p.reserves_a, 1_000_000);
    assert_eq!(position.lp_token_amount, 500);
}

#[test]
fn remove_liquidity_rejects_burning_more_than_held() {
    let mut p = pool(0, 0, 0, 1_000_000, 2_000_000);
    let mut position = open_amm_position(FeePreference::Claim);
    position.lp_token_amount = 50;
    assert_eq!(
        remove_amm_liquidity(&mut p, &mut position, 1_000, 100, 0, 0, 9),
        Err(DloomError::MathOverflow)
    );
}

#[test]
fn oracle_aborts_on_cumulative_overflow_without_writing() {
    let mut p = pool(0, 0, 0, 1_000_000, 2_000_000);
    update_oracle(&mut p, 100).unwrap();
    p.price_a_cumulative = u128::MAX;
    let before = p;
    assert_eq!(update_oracle(&mut p, 200), Err(DloomError::MathOverflow));
    assert_eq!(p.price_a_cumulative, before.price_a_cumulative);
    assert_eq!(p.last_update_timestamp, before.last_update_timestamp);
}
