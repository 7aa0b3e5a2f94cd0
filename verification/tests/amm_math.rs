use dloom_flow::amm::math::{
    calculate_assets_to_withdraw, calculate_lp_tokens_to_mint, calculate_swap_out_amount, sqrt,
};
use dloom_flow::amm::state::{create_amm_pool, AmmPool};
use dloom_flow::errors::DloomError;

fn pool_with_fees(fee_rate: u16, protocol_fee_share: u16, referrer_fee_share: u16) -> AmmPool {
    create_amm_pool(fee_rate, protocol_fee_share, referrer_fee_share).unwrap()
}

fn pool_with_reserves(fee_rate: u16, protocol_fee_share: u16, ra: u64, rb: u64) -> AmmPool {
    let mut pool = pool_with_fees(fee_rate, protocol_fee_share, 0);
    pool.reserves_a = ra;
    pool.reserves_b = rb;
    pool
}

#[test]
fn sqrt_small_values() {
    assert_eq!(sqrt(0), 0);
    assert_eq!(sqrt(1), 1);
    assert_eq!(sqrt(2), 1);
    assert_eq!(sqrt(3), 1);
    assert_eq!(sqrt(4), 2);
    assert_eq!(sqrt(99), 9);
    assert_eq!(sqrt(100), 10);
}

#[test]
fn sqrt_large_values() {
    assert_eq!(sqrt(400_000_000), 20_000);
    assert_eq!(sqrt(u128::from(u64::MAX) * u128::from(u64::MAX)), u128::from(u64::MAX));
    assert_eq!(sqrt((1u128 << 100) - 1), (1u128 << 50) - 1);
}

// Scenario: 30 bps fee, half to the protocol, 10_000 in against
// 1_000_000 / 2_000_000 reserves.
#[test]
fn swap_out_scenario() {
    let pool = pool_with_fees(30, 5000, 0);
    let (out, protocol_fee, lp_fee) =
        calculate_swap_out_amount(&pool, 10_000, 1_000_000, 2_000_000).unwrap();
    // total fee 30, split 15/15, net 9_970,
    // floor(2_000_000 * 9_970 / 1_009_970) = 19_743.
    assert_eq!(protocol_fee, 15);
    assert_eq!(lp_fee, 15);
    assert_eq!(out, 19_743);
}

// With a zero fee rate the output is exactly
// floor(dst * amount_in / (src + amount_in)).
#[test]
fn swap_out_zero_fee_exact() {
    let pool = pool_with_fees(0, 0, 0);
    let (out, protocol_fee, lp_fee) =
        calculate_swap_out_amount(&pool, 10_000, 1_000_000, 2_000_000).unwrap();
    assert_eq!(protocol_fee, 0);
    assert_eq!(lp_fee, 0);
    assert_eq!(out, 2_000_000u64 * 10_000 / 1_010_000);
    assert_eq!(out, 19_801);
}

// Swap output is non-decreasing in the input amount.
#[test]
fn swap_out_monotone_in_amount() {
    let pool = pool_with_fees(30, 5000, 0);
    let mut last = 0u64;
    for amount_in in [1u64, 2, 10, 100, 9_999, 10_000, 10_001, 500_000] {
        let (out, _, _) = calculate_swap_out_amount(&pool, amount_in, 1_000_000, 2_000_000).unwrap();
        assert!(out >= last);
        last = out;
    }
}

// Swap output is non-increasing in the fee rate.
#[test]
fn swap_out_antitone_in_fee() {
    let mut last = u64::MAX;
    for fee_rate in [0u16, 1, 10, 30, 100, 1_000, 9_999, 10_000] {
        let pool = pool_with_fees(fee_rate, 0, 0);
        let (out, _, _) = calculate_swap_out_amount(&pool, 10_000, 1_000_000, 2_000_000).unwrap();
        assert!(out <= last);
        last = out;
    }
}

// The reserve product never decreases across a swap.
#[test]
fn swap_preserves_constant_product() {
    for fee_rate in [0u16, 30, 500, 10_000] {
        let pool = pool_with_fees(fee_rate, 5000, 0);
        let (src, dst) = (1_000_000u64, 2_000_000u64);
        let (out, protocol_fee, _) = calculate_swap_out_amount(&pool, 10_000, src, dst).unwrap();
        let before = u128::from(src) * u128::from(dst);
        let after = (u128::from(src) + 10_000 - u128::from(protocol_fee))
            * (u128::from(dst) - u128::from(out));
        assert!(after >= before);
    }
}

#[test]
fn swap_out_rejects_zero_amount() {
    let pool = pool_with_fees(30, 5000, 0);
    assert_eq!(
        calculate_swap_out_amount(&pool, 0, 1_000_000, 2_000_000),
        Err(DloomError::ZeroAmount)
    );
}

#[test]
fn swap_out_rejects_empty_reserves() {
    let pool = pool_with_fees(30, 5000, 0);
    assert_eq!(
        calculate_swap_out_amount(&pool, 10, 0, 2_000_000),
        Err(DloomError::InsufficientLiquidityForSwap)
    );
    assert_eq!(
        calculate_swap_out_amount(&pool, 10, 1_000_000, 0),
        Err(DloomError::InsufficientLiquidityForSwap)
    );
}

// Scenario: first deposit of (10_000, 40_000) mints the geometric mean.
#[test]
fn first_deposit_mints_geometric_mean() {
    let pool = pool_with_fees(30, 5000, 0);
    let (da, db, minted) = calculate_lp_tokens_to_mint(&pool, 0, 10_000, 40_000).unwrap();
    assert_eq!(da, 10_000);
    assert_eq!(db, 40_000);
    assert_eq!(minted, 20_000);
}

#[test]
fn subsequent_deposit_is_trimmed_to_ratio() {
    // Reserves 1000:4000; desiring (10, 50) trims b to the optimal 40.
    let pool = pool_with_reserves(0, 0, 1_000, 4_000);
    let (da, db, minted) = calculate_lp_tokens_to_mint(&pool, 100, 10, 50).unwrap();
    assert_eq!(da, 10);
    assert_eq!(db, 40);
    assert_eq!(minted, 1);
}

#[test]
fn subsequent_deposit_trims_side_a() {
    // Reserves 1000:4000; desiring (10, 20) overshoots on a, so a is
    // trimmed to floor(20 * 1000 / 4000) = 5.
    let pool = pool_with_reserves(0, 0, 1_000, 4_000);
    let (da, db, minted) = calculate_lp_tokens_to_mint(&pool, 100, 10, 20).unwrap();
    assert_eq!(da, 5);
    assert_eq!(db, 20);
    assert_eq!(minted, 0);
}

#[test]
fn subsequent_deposit_with_empty_reserve_is_overflow() {
    let pool = pool_with_reserves(0, 0, 0, 4_000);
    assert_eq!(
        calculate_lp_tokens_to_mint(&pool, 100, 10, 50),
        Err(DloomError::MathOverflow)
    );
}

#[test]
fn withdraw_is_pro_rata() {
    let (a, b) = calculate_assets_to_withdraw(1_000_000, 2_000_000, 1_000, 100).unwrap();
    assert_eq!(a, 100_000);
    assert_eq!(b, 200_000);
}

#[test]
fn withdraw_rejects_zero_supply() {
    assert_eq!(
        calculate_assets_to_withdraw(1_000_000, 2_000_000, 0, 100),
        Err(DloomError::InsufficientLiquidity)
    );
}

// Round trip: a first deposit, then burning every minted unit, returns
// exactly the deposited amounts.
#[test]
fn first_deposit_round_trip_returns_deposit() {
    let pool = pool_with_fees(0, 0, 0);
    let (da, db, minted) = calculate_lp_tokens_to_mint(&pool, 0, 10_000, 40_000).unwrap();
    let (out_a, out_b) = calculate_assets_to_withdraw(da, db, minted, minted).unwrap();
    assert!(out_a <= 10_000 && out_b <= 40_000);
    assert_eq!(out_a, 10_000);
    assert_eq!(out_b, 40_000);
}

#[test]
fn round_trip_loses_at_most_dust() {
    // An uneven deposit: the minted supply floors, the withdrawal floors
    // again, and the trader never gets back more than went in.
    for (a, b) in [(7u64, 13u64), (999, 1000), (123_456, 654_321)] {
        let pool = pool_with_fees(0, 0, 0);
        let (da, db, minted) = calculate_lp_tokens_to_mint(&pool, 0, a, b).unwrap();
        if minted == 0 {
            continue;
        }
        let (out_a, out_b) = calculate_assets_to_withdraw(da, db, minted, minted).unwrap();
        assert!(out_a <= a);
        assert!(out_b <= b);
    }
}

#[test]
fn create_pool_validates_fee_fields() {
    assert_eq!(
        create_amm_pool(10_001, 0, 0),
        Err(DloomError::InvalidFeeRates)
    );
    assert_eq!(
        create_amm_pool(30, 10_001, 0),
        Err(DloomError::InvalidFeeRates)
    );
    assert_eq!(
        create_amm_pool(30, 0, 10_001),
        Err(DloomError::InvalidFeeRates)
    );
    assert_eq!(
        create_amm_pool(30, 6_000, 6_000),
        Err(DloomError::FeeShareExceedsTotal)
    );
    let pool = create_amm_pool(30, 5_000, 1_000).unwrap();
    assert_eq!(pool.fee_rate, 30);
    assert_eq!(pool.reserves_a, 0);
    assert_eq!(pool.reserves_b, 0);
    assert_eq!(pool.last_update_timestamp, 0);
}
