use dloom_flow::dlmm::math::{
    calculate_accrued_fees, calculate_claimable_amounts, calculate_required_for_bin,
    calculate_required_token_amounts, get_price_at_bin, power_fp,
};
use dloom_flow::dlmm::state::{Bin, DlmmPool, PoolType, Position};
use dloom_flow::errors::DloomError;

const PRECISION: u128 = 1_000_000_000;

fn pool(bin_step: u16, active_bin_id: i32) -> DlmmPool {
    DlmmPool {
        pool_type: PoolType::Official,
        active_bin_id,
        bin_step,
        fee_rate: 0,
        protocol_fee_share: 0,
        referrer_fee_share: 0,
        volatility_accumulator: 0,
        last_fee_update_timestamp: 0,
        reserves_a: 0,
        reserves_b: 0,
    }
}

fn position(lower: i32, upper: i32, liquidity: u128) -> Position {
    Position {
        lower_bin_id: lower,
        upper_bin_id: upper,
        liquidity,
        fee_growth_snapshot_a: 0,
        fee_growth_snapshot_b: 0,
    }
}

#[test]
fn power_fp_identity_and_first_steps() {
    assert_eq!(power_fp(10_020, 0).unwrap(), PRECISION);
    assert_eq!(power_fp(10_020, 1).unwrap(), 1_002_000_000);
    assert_eq!(power_fp(10_020, 2).unwrap(), 1_004_000_000);
}

// Scenario: a 20 bps step prices the origin bin at the scale and the next
// bin a fifth of a percent higher.
#[test]
fn price_curve_scenario() {
    assert_eq!(get_price_at_bin(0, 20).unwrap(), PRECISION);
    assert_eq!(get_price_at_bin(1, 20).unwrap(), 1_002_000_000);
    assert_eq!(get_price_at_bin(5, 20).unwrap(), 1_010_016_000);
}

#[test]
fn negative_bins_invert_through_the_squared_scale() {
    assert_eq!(get_price_at_bin(-1, 20).unwrap(), 998_003_992);
    assert_eq!(
        get_price_at_bin(-1, 20).unwrap(),
        PRECISION * PRECISION / 1_002_000_000
    );
    assert_eq!(get_price_at_bin(-10, 10).unwrap(), 990_083_325);
}

#[test]
fn zero_bin_step_is_rejected() {
    assert_eq!(get_price_at_bin(5, 0), Err(DloomError::InvalidBinStep));
}

#[test]
fn huge_magnitudes_abort_instead_of_wrapping() {
    // The squaring chain overflows 128 bits long before this exponent.
    assert_eq!(get_price_at_bin(i32::MAX, 20), Err(DloomError::MathOverflow));
}

#[test]
fn required_for_bin_above_below_and_active() {
    // Above the active bin: only asset A.
    assert_eq!(calculate_required_for_bin(10, 20, 10, 1_000).unwrap(), (1_000, 0));
    // Below: only asset B, at the bin's price.
    assert_eq!(calculate_required_for_bin(10, -10, 10, 1_000).unwrap(), (0, 990));
    // The active bin needs both.
    assert_eq!(calculate_required_for_bin(10, 10, 10, 1_000).unwrap(), (1_000, 1_010));
}

#[test]
fn required_token_amounts_sum_over_the_range() {
    // Bins -10, 0, 10 with the active bin at 10: per-bin liquidity 1000.
    let p = pool(10, 10);
    let (a, b) = calculate_required_token_amounts(&p, -10, 10, 3_000).unwrap();
    assert_eq!(a, 1_000);
    assert_eq!(b, 990 + 1_000 + 1_010);
}

#[test]
fn required_token_amounts_drop_the_split_remainder() {
    // 3_002 over 3 bins leaves 1_000 per bin; the remainder of 2 is not
    // distributed.
    let p = pool(10, -20);
    let (a, b) = calculate_required_token_amounts(&p, -10, 10, 3_002).unwrap();
    assert_eq!(a, 3_000);
    assert_eq!(b, 0);
}

#[test]
fn claimable_amounts_mirror_the_deposit_rule() {
    let p = pool(10, 10);
    let pos = position(-10, 10, 0);
    let (a, b) = calculate_claimable_amounts(&p, &pos, 3_000).unwrap();
    assert_eq!(a, 1_000);
    assert_eq!(b, 990 + 1_000 + 1_010);
}

#[test]
fn accrued_fees_scale_growth_by_units() {
    let pos = position(0, 10, 3);
    let bin = Bin {
        liquidity: 0,
        fee_growth_per_unit_a: PRECISION,
        fee_growth_per_unit_b: 2 * PRECISION,
    };
    assert_eq!(calculate_accrued_fees(&pos, &bin), (3, 6));
}

#[test]
fn accrued_fees_saturate_to_zero() {
    // A snapshot ahead of the accumulator pays nothing, and an
    // overflowing product collapses to zero rather than aborting.
    let mut pos = position(0, 10, u128::MAX);
    pos.fee_growth_snapshot_a = 5;
    let bin = Bin {
        liquidity: 0,
        fee_growth_per_unit_a: 3,
        fee_growth_per_unit_b: u128::MAX,
    };
    assert_eq!(calculate_accrued_fees(&pos, &bin), (0, 0));
}
