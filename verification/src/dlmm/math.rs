//! Bin price curve and per-bin liquidity mathematics of the discretized
//! pool.
//!
//! price(id) = (1 + bin_step/10000)^id in fixed point, computed by
//! exponentiation-by-squaring with a divide at every step to bound growth;
//! negative ids invert through the squared scale. Deposit and claim
//! requirements walk the step-aligned bin range and price each bin.

use vstd::prelude::*;

use crate::constants::{BASIS_POINT_MAX, PRECISION};
use crate::errors::DloomError;
use crate::dlmm::state::{Bin, DlmmPool, Position};

verus! {

/// Magnitude of a bin id.
pub open spec fn spec_abs(id: int) -> int {
    if id < 0 {
        -id
    } else {
        id
    }
}

/// The exponentiation-by-squaring recurrence, checked step by step: None
/// marks the abort of the 128-bit checked arithmetic. The base is squared
/// each round, also on the last, exactly as the running loop does.
pub open spec fn spec_power_fp_walk(res: int, base_fp: int, exp: nat) -> Option<int>
    decreases exp,
{
    if exp == 0 {
        Some(res)
    } else if exp % 2 == 1 && res * base_fp > u128::MAX {
        None
    } else {
        let res2 = if exp % 2 == 1 {
            res * base_fp / (BASIS_POINT_MAX as int)
        } else {
            res
        };
        if base_fp * base_fp > u128::MAX {
            None
        } else {
            spec_power_fp_walk(res2, base_fp * base_fp / (BASIS_POINT_MAX as int), exp / 2)
        }
    }
}

/// Fixed-point power of the curve base: PRECISION * (base/10000)^exp with
/// a floor at every multiply.
pub open spec fn spec_power_fp(base: int, exp: nat) -> Option<int> {
    spec_power_fp_walk(PRECISION as int, base, exp)
}

/// A successful power stays within 128 bits and non-negative.
pub proof fn lemma_power_fp_walk_bounds(res: int, base_fp: int, exp: nat)
    requires
        0 <= res <= u128::MAX,
        0 <= base_fp,
    ensures
        spec_power_fp_walk(res, base_fp, exp) matches Some(v) ==> 0 <= v <= u128::MAX,
    decreases exp,
{
    if exp != 0 {
        let d = BASIS_POINT_MAX as int;
        let res2 = if exp % 2 == 1 {
            res * base_fp / d
        } else {
            res
        };
        if !(exp % 2 == 1 && res * base_fp > u128::MAX) && base_fp * base_fp <= u128::MAX {
            if exp % 2 == 1 {
                vstd::arithmetic::div_mod::lemma_div_pos_is_pos(res * base_fp, d);
                vstd::arithmetic::div_mod::lemma_div_nonincreasing(res * base_fp, d);
                assert(0 <= res * base_fp) by (nonlinear_arith)
                    requires
                        0 <= res,
                        0 <= base_fp;
            }
            vstd::arithmetic::div_mod::lemma_div_pos_is_pos(base_fp * base_fp, d);
            vstd::arithmetic::div_mod::lemma_div_nonincreasing(base_fp * base_fp, d);
            assert(0 <= base_fp * base_fp) by (nonlinear_arith)
                requires
                    0 <= base_fp;
            lemma_power_fp_walk_bounds(res2, base_fp * base_fp / d, exp / 2);
        }
    }
}

/// Fixed-point exponentiation by squaring, multiplying then dividing by the
/// basis-point whole at each step to bound growth.
pub fn power_fp(base: u128, exp: u128) -> (r: Result<u128, DloomError>)
    ensures
        match spec_power_fp(base as int, exp as nat) {
            Some(v) => r == Ok::<u128, DloomError>(v as u128),
            None => r == Err::<u128, DloomError>(DloomError::MathOverflow),
        },
{
    let mut res: u128 = PRECISION;
    let mut base_fp: u128 = base;
    let mut exp_rem: u128 = exp;

    if exp == 0 {
        return Ok(res);
    }

    proof {
        lemma_power_fp_walk_bounds(res as int, base_fp as int, exp_rem as nat);
    }
    while exp_rem > 0
        invariant
            spec_power_fp(base as int, exp as nat) == spec_power_fp_walk(
                res as int,
                base_fp as int,
                exp_rem as nat,
            ),
        decreases exp_rem,
    {
        if exp_rem % 2 == 1 {
            res = match res.checked_mul(base_fp) {
                Some(p) => p / BASIS_POINT_MAX,
                None => {
                    return Err(DloomError::MathOverflow);
                },
            };
        }
        base_fp = match base_fp.checked_mul(base_fp) {
            Some(p) => p / BASIS_POINT_MAX,
            None => {
                return Err(DloomError::MathOverflow);
            },
        };
        exp_rem = exp_rem / 2;
    }
    Ok(res)
}

/// The bin price curve as a value: Ok(price) or the abort the checked
/// arithmetic forces. A zero bin step is rejected; a negative id inverts
/// the positive-magnitude price through the squared scale.
pub open spec fn spec_price_at_bin(bin_id: int, bin_step: int) -> Result<int, DloomError> {
    if bin_step == 0 {
        Err(DloomError::InvalidBinStep)
    } else {
        match spec_power_fp(BASIS_POINT_MAX + bin_step, spec_abs(bin_id) as nat) {
            None => Err(DloomError::MathOverflow),
            Some(price_ratio) => {
                if bin_id >= 0 {
                    Ok(price_ratio)
                } else if price_ratio == 0 {
                    Err(DloomError::MathOverflow)
                } else {
                    Ok(PRECISION * PRECISION / price_ratio)
                }
            },
        }
    }
}

/// Deterministic geometric price of a bin: (1 + bin_step/10000)^bin_id in
/// fixed point.
pub fn get_price_at_bin(bin_id: i32, bin_step: u16) -> (r: Result<u128, DloomError>)
    ensures
        match spec_price_at_bin(bin_id as int, bin_step as int) {
            Ok(v) => r == Ok::<u128, DloomError>(v as u128) && 0 <= v <= u128::MAX,
            Err(e) => r == Err::<u128, DloomError>(e),
        },
{
    if bin_step == 0 {
        return Err(DloomError::InvalidBinStep);
    }
    let basis_point_step = bin_step as u128;
    let base = BASIS_POINT_MAX + basis_point_step;
    let power: u128 = if bin_id >= 0 {
        bin_id as u128
    } else {
        (-(bin_id as i64)) as u128
    };
    proof {
        assert(power == spec_abs(bin_id as int));
    }

    proof {
        lemma_power_fp_walk_bounds(PRECISION as int, base as int, power as nat);
    }
    let price_ratio = match power_fp(base, power) {
        Ok(v) => v,
        Err(e) => {
            return Err(e);
        },
    };

    if bin_id >= 0 {
        Ok(price_ratio)
    } else {
        if price_ratio == 0 {
            return Err(DloomError::MathOverflow);
        }
        proof {
            vstd::arithmetic::div_mod::lemma_div_pos_is_pos(
                PRECISION as int * PRECISION,
                price_ratio as int,
            );
            vstd::arithmetic::div_mod::lemma_div_nonincreasing(
                PRECISION as int * PRECISION,
                price_ratio as int,
            );
        }
        Ok(PRECISION * PRECISION / price_ratio)
    }
}

/// Token requirements of one bin for a given per-bin liquidity: bins above
/// the active one hold only asset A, bins below only asset B at the bin's
/// price, the active bin both.
pub open spec fn spec_required_for_bin(active: int, id: int, step: int, liq: int) -> Result<
    (int, int),
    DloomError,
> {
    if id > active {
        Ok((liq, 0))
    } else {
        match spec_price_at_bin(id, step) {
            Err(e) => Err(e),
            Ok(price) => {
                if liq * price > u128::MAX {
                    Err(DloomError::MathOverflow)
                } else {
                    let amount_b = liq * price / (PRECISION as int);
                    if id < active {
                        Ok((0, amount_b))
                    } else {
                        Ok((liq, amount_b))
                    }
                }
            },
        }
    }
}

/// Computes what one bin requires of each token for the given liquidity.
pub fn calculate_required_for_bin(
    active_bin_id: i32,
    bin_id: i32,
    bin_step: u16,
    liquidity_amount: u128,
) -> (r: Result<(u128, u128), DloomError>)
    ensures
        match spec_required_for_bin(
            active_bin_id as int,
            bin_id as int,
            bin_step as int,
            liquidity_amount as int,
        ) {
            Ok(t) => r == Ok::<(u128, u128), DloomError>((t.0 as u128, t.1 as u128)) && 0 <= t.0
                <= u128::MAX && 0 <= t.1 <= u128::MAX,
            Err(e) => r == Err::<(u128, u128), DloomError>(e),
        },
{
    if bin_id > active_bin_id {
        // Bins above the active one are composed entirely of token A.
        return Ok((liquidity_amount, 0));
    }
    let price = match get_price_at_bin(bin_id, bin_step) {
        Ok(p) => p,
        Err(e) => {
            return Err(e);
        },
    };
    let scaled = match liquidity_amount.checked_mul(price) {
        Some(p) => p,
        None => {
            return Err(DloomError::MathOverflow);
        },
    };
    proof {
        vstd::arithmetic::div_mod::lemma_div_pos_is_pos(scaled as int, PRECISION as int);
        vstd::arithmetic::div_mod::lemma_div_nonincreasing(scaled as int, PRECISION as int);
    }
    let amount_b = scaled / PRECISION;
    if bin_id < active_bin_id {
        // Bins below the active one are composed entirely of token B.
        Ok((0, amount_b))
    } else {
        // The active bin holds both tokens.
        Ok((liquidity_amount, amount_b))
    }
}

/// The step-aligned walk over [id, upper] accumulating each bin's token
/// requirements, with the checked-addition aborts of the running loop.
pub open spec fn spec_required_walk(
    active: int,
    step: int,
    liq_per_bin: int,
    id: int,
    upper: int,
    acc_a: int,
    acc_b: int,
) -> Result<(int, int), DloomError>
    decreases upper + step - id,
    when step >= 1
{
    if id > upper {
        Ok((acc_a, acc_b))
    } else {
        match spec_required_for_bin(active, id, step, liq_per_bin) {
            Err(e) => Err(e),
            Ok(t) => {
                if acc_a + t.0 > u128::MAX || acc_b + t.1 > u128::MAX {
                    Err(DloomError::MathOverflow)
                } else {
                    spec_required_walk(active, step, liq_per_bin, id + step, upper, acc_a + t.0, acc_b + t.1)
                }
            },
        }
    }
}

/// Walks the bin range accumulating per-bin requirements.
fn accumulate_range(
    active_bin_id: i32,
    bin_step: u16,
    liquidity_per_bin: u128,
    lower_bin_id: i32,
    upper_bin_id: i32,
) -> (r: Result<(u128, u128), DloomError>)
    requires
        bin_step >= 1,
    ensures
        match spec_required_walk(
            active_bin_id as int,
            bin_step as int,
            liquidity_per_bin as int,
            lower_bin_id as int,
            upper_bin_id as int,
            0,
            0,
        ) {
            Ok(t) => r == Ok::<(u128, u128), DloomError>((t.0 as u128, t.1 as u128)) && 0 <= t.0
                <= u128::MAX && 0 <= t.1 <= u128::MAX,
            Err(e) => r == Err::<(u128, u128), DloomError>(e),
        },
{
    let mut amount_a: u128 = 0;
    let mut amount_b: u128 = 0;
    let mut bin_id: i64 = lower_bin_id as i64;

    while bin_id <= upper_bin_id as i64
        invariant
            bin_step >= 1,
            lower_bin_id as int <= bin_id,
            i32::MIN <= bin_id <= i32::MAX || bin_id > upper_bin_id as int,
            spec_required_walk(
                active_bin_id as int,
                bin_step as int,
                liquidity_per_bin as int,
                lower_bin_id as int,
                upper_bin_id as int,
                0,
                0,
            ) == spec_required_walk(
                active_bin_id as int,
                bin_step as int,
                liquidity_per_bin as int,
                bin_id as int,
                upper_bin_id as int,
                amount_a as int,
                amount_b as int,
            ),
        decreases upper_bin_id + bin_step - bin_id,
    {
        let (required_a, required_b) = match calculate_required_for_bin(
            active_bin_id,
            bin_id as i32,
            bin_step,
            liquidity_per_bin,
        ) {
            Ok(t) => t,
            Err(e) => {
                return Err(e);
            },
        };
        amount_a = match amount_a.checked_add(required_a) {
            Some(v) => v,
            None => {
                return Err(DloomError::MathOverflow);
            },
        };
        amount_b = match amount_b.checked_add(required_b) {
            Some(v) => v,
            None => {
                return Err(DloomError::MathOverflow);
            },
        };
        bin_id = bin_id + bin_step as i64;
    }
    Ok((amount_a, amount_b))
}

/// Count of step-aligned bins in an inclusive range.
pub open spec fn spec_bin_count(lower: int, upper: int, step: int) -> int {
    (upper - lower) / step + 1
}

/// Full specification of a range deposit: the requested liquidity splits
/// evenly over the covered bins (the division remainder is not
/// distributed) and each bin contributes its token requirement.
pub open spec fn spec_required_token_amounts(
    pool: DlmmPool,
    lower: int,
    upper: int,
    amount_to_deposit: int,
) -> Result<(int, int), DloomError> {
    let num_bins = spec_bin_count(lower, upper, pool.bin_step as int);
    let liq_per_bin = amount_to_deposit / num_bins;
    spec_required_walk(pool.active_bin_id as int, pool.bin_step as int, liq_per_bin, lower, upper, 0, 0)
}

/// Token amounts a deposit of the given liquidity over [lower, upper]
/// requires of each asset.
pub fn calculate_required_token_amounts(
    pool: &DlmmPool,
    lower_bin_id: i32,
    upper_bin_id: i32,
    amount_to_deposit: u128,
) -> (r: Result<(u128, u128), DloomError>)
    requires
        pool.wf(),
        lower_bin_id <= upper_bin_id,
    ensures
        match spec_required_token_amounts(
            *pool,
            lower_bin_id as int,
            upper_bin_id as int,
            amount_to_deposit as int,
        ) {
            Ok(t) => r == Ok::<(u128, u128), DloomError>((t.0 as u128, t.1 as u128)) && 0 <= t.0
                <= u128::MAX && 0 <= t.1 <= u128::MAX,
            Err(e) => r == Err::<(u128, u128), DloomError>(e),
        },
{
    let diff = (upper_bin_id as i64 - lower_bin_id as i64) as u128;
    let num_bins = diff / (pool.bin_step as u128) + 1;
    proof {
        vstd::arithmetic::div_mod::lemma_div_pos_is_pos(diff as int, pool.bin_step as int);
        vstd::arithmetic::div_mod::lemma_div_nonincreasing(diff as int, pool.bin_step as int);
        vstd::arithmetic::div_mod::lemma_div_pos_is_pos(amount_to_deposit as int, num_bins as int);
        vstd::arithmetic::div_mod::lemma_div_nonincreasing(
            amount_to_deposit as int,
            num_bins as int,
        );
    }
    let liquidity_per_bin = amount_to_deposit / num_bins;
    accumulate_range(
        pool.active_bin_id,
        pool.bin_step,
        liquidity_per_bin,
        lower_bin_id,
        upper_bin_id,
    )
}

/// Full specification of a range claim: the removed liquidity splits
/// evenly over the position's bins and each bin pays out by the same
/// above/below/active rule the deposit used.
pub open spec fn spec_claimable_amounts(
    pool: DlmmPool,
    position: Position,
    liquidity_to_remove: int,
) -> Result<(int, int), DloomError> {
    let num_bins = spec_bin_count(
        position.lower_bin_id as int,
        position.upper_bin_id as int,
        pool.bin_step as int,
    );
    let liq_per_bin = liquidity_to_remove / num_bins;
    spec_required_walk(
        pool.active_bin_id as int,
        pool.bin_step as int,
        liq_per_bin,
        position.lower_bin_id as int,
        position.upper_bin_id as int,
        0,
        0,
    )
}

/// Principal token amounts claimable for removing the given liquidity from
/// a position's range.
pub fn calculate_claimable_amounts(
    pool: &DlmmPool,
    position: &Position,
    liquidity_to_remove: u128,
) -> (r: Result<(u128, u128), DloomError>)
    requires
        pool.wf(),
        position.wf(),
    ensures
        match spec_claimable_amounts(*pool, *position, liquidity_to_remove as int) {
            Ok(t) => r == Ok::<(u128, u128), DloomError>((t.0 as u128, t.1 as u128)) && 0 <= t.0
                <= u128::MAX && 0 <= t.1 <= u128::MAX,
            Err(e) => r == Err::<(u128, u128), DloomError>(e),
        },
{
    let diff = (position.upper_bin_id as i64 - position.lower_bin_id as i64) as u128;
    let num_bins = diff / (pool.bin_step as u128) + 1;
    proof {
        vstd::arithmetic::div_mod::lemma_div_pos_is_pos(diff as int, pool.bin_step as int);
        vstd::arithmetic::div_mod::lemma_div_nonincreasing(diff as int, pool.bin_step as int);
        vstd::arithmetic::div_mod::lemma_div_pos_is_pos(
            liquidity_to_remove as int,
            num_bins as int,
        );
        vstd::arithmetic::div_mod::lemma_div_nonincreasing(
            liquidity_to_remove as int,
            num_bins as int,
        );
    }
    let liquidity_per_bin = liquidity_to_remove / num_bins;
    accumulate_range(
        pool.active_bin_id,
        pool.bin_step,
        liquidity_per_bin,
        position.lower_bin_id,
        position.upper_bin_id,
    )
}

/// Fee accrued to a position in one bin on one asset: the bin's per-unit
/// growth since the position's snapshot times the position's units. An
/// overflowing product collapses to zero rather than aborting, as does a
/// snapshot ahead of the accumulator.
pub open spec fn spec_accrued_fee(growth: u128, snapshot: u128, units: u128) -> int {
    let diff: int = if growth >= snapshot {
        growth - snapshot
    } else {
        0
    };
    if diff * units > u128::MAX {
        0
    } else {
        diff * units / (PRECISION as int)
    }
}

/// The accrued fee truncated into a 64-bit token amount.
pub open spec fn spec_accrued_fee_u64(growth: u128, snapshot: u128, units: u128) -> int {
    spec_accrued_fee(growth, snapshot, units) % 0x1_0000_0000_0000_0000
}

/// Fees a position has accrued in one bin on both assets since its
/// snapshots.
pub fn calculate_accrued_fees(position: &Position, bin: &Bin) -> (r: (u64, u64))
    ensures
        r.0 == spec_accrued_fee_u64(
            bin.fee_growth_per_unit_a,
            position.fee_growth_snapshot_a,
            position.liquidity,
        ),
        r.1 == spec_accrued_fee_u64(
            bin.fee_growth_per_unit_b,
            position.fee_growth_snapshot_b,
            position.liquidity,
        ),
{
    let fees_a = accrued_fee_side(
        bin.fee_growth_per_unit_a,
        position.fee_growth_snapshot_a,
        position.liquidity,
    );
    let fees_b = accrued_fee_side(
        bin.fee_growth_per_unit_b,
        position.fee_growth_snapshot_b,
        position.liquidity,
    );
    (fees_a, fees_b)
}

/// One side of the accrued-fee computation.
fn accrued_fee_side(growth: u128, snapshot: u128, units: u128) -> (r: u64)
    ensures
        r == spec_accrued_fee_u64(growth, snapshot, units),
{
    let diff = match growth.checked_sub(snapshot) {
        Some(d) => d,
        None => 0,
    };
    let scaled = match diff.checked_mul(units) {
        Some(p) => p / PRECISION,
        None => 0,
    };
    proof {
        crate::arith::lemma_u128_truncate_u64(scaled);
        vstd::arithmetic::div_mod::lemma_div_pos_is_pos(diff as int * units as int, PRECISION as int);
    }
    #[verifier::truncate] (scaled as u64)
}

} // verus!
