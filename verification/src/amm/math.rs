//! Pure pricing arithmetic of the constant-product pool.
//!
//! All computation is widened to 128 bits and every division floors,
//! biasing rounding dust toward the pool.

use vstd::prelude::*;
use vstd::arithmetic::div_mod::{
    lemma_div_non_zero, lemma_div_nonincreasing, lemma_div_of0, lemma_div_pos_is_pos,
    lemma_fundamental_div_mod,
};

use crate::arith::{
    lemma_div_le_bound, lemma_mul_le, lemma_rate_cut_le, lemma_u128_fits_u64,
    lemma_u128_truncate_u64,
};
use crate::constants::BASIS_POINT_MAX;
use crate::errors::DloomError;
use crate::amm::state::AmmPool;

verus! {

/// Fee taken from a swap input: amount_in scaled by the fee rate in basis
/// points, floored.
pub open spec fn spec_total_fee(amount_in: int, fee_rate: int) -> int {
    amount_in * fee_rate / (BASIS_POINT_MAX as int)
}

/// Share of the total fee routed to the protocol, floored.
pub open spec fn spec_protocol_fee(amount_in: int, fee_rate: int, protocol_fee_share: int) -> int {
    spec_total_fee(amount_in, fee_rate) * protocol_fee_share / (BASIS_POINT_MAX as int)
}

/// Remainder of the total fee, kept for liquidity providers.
pub open spec fn spec_lp_fee(amount_in: int, fee_rate: int, protocol_fee_share: int) -> int {
    spec_total_fee(amount_in, fee_rate) - spec_protocol_fee(amount_in, fee_rate, protocol_fee_share)
}

/// Input amount that actually trades, after the fee is taken.
pub open spec fn spec_net_in(amount_in: int, fee_rate: int) -> int {
    amount_in - spec_total_fee(amount_in, fee_rate)
}

/// Constant-product swap output: the destination reserve scaled by the net
/// input's share of the grown source reserve, floored.
pub open spec fn spec_swap_out(amount_in: int, fee_rate: int, src: int, dst: int) -> int {
    dst * spec_net_in(amount_in, fee_rate) / (src + spec_net_in(amount_in, fee_rate))
}

/// Pro-rata share of one reserve owed for burning lp tokens, floored.
pub open spec fn spec_withdraw_amount(reserve: int, burn: int, supply: int) -> int {
    reserve * burn / supply
}

/// Smaller of two values.
pub open spec fn spec_min(a: int, b: int) -> int {
    if a < b {
        a
    } else {
        b
    }
}

/// r is the integer square root of n.
pub open spec fn is_sqrt(r: int, n: int) -> bool {
    0 <= r && r * r <= n && n < (r + 1) * (r + 1)
}

/// The integer square root as a value: the unique r with is_sqrt(r, n).
pub open spec fn spec_sqrt(n: int) -> int {
    choose|r: int| is_sqrt(r, n)
}

/// Every non-negative integer has an integer square root.
pub proof fn lemma_sqrt_exists(n: nat)
    ensures
        is_sqrt(spec_sqrt(n as int), n as int),
    decreases n,
{
    if n == 0 {
        assert(is_sqrt(0, 0)) by (nonlinear_arith);
        assert(is_sqrt(spec_sqrt(0), 0));
    } else {
        lemma_sqrt_exists((n - 1) as nat);
        let r0 = spec_sqrt(n - 1);
        if n < (r0 + 1) * (r0 + 1) {
            assert(is_sqrt(r0, n as int));
        } else {
            assert(is_sqrt(r0 + 1, n as int)) by (nonlinear_arith)
                requires
                    is_sqrt(r0, n - 1),
                    n >= (r0 + 1) * (r0 + 1);
        }
        assert(is_sqrt(spec_sqrt(n as int), n as int));
    }
}

/// The integer square root is unique.
pub proof fn lemma_sqrt_unique(r: int, n: int)
    requires
        is_sqrt(r, n),
    ensures
        r == spec_sqrt(n),
{
    if n >= 0 {
        lemma_sqrt_exists(n as nat);
        let r2 = spec_sqrt(n);
        assert(r == r2) by (nonlinear_arith)
            requires
                0 <= r,
                r * r <= n < (r + 1) * (r + 1),
                0 <= r2,
                r2 * r2 <= n < (r2 + 1) * (r2 + 1);
    } else {
        assert(r * r >= 0) by (nonlinear_arith);
    }
}

/// One Newton step from x lands at or above the integer square root:
/// with y = (x + n/x) / 2, n stays below (y+1)^2.
proof fn lemma_newton_upper(x: int, n: int)
    requires
        1 <= x,
        0 <= n,
    ensures
        n < (((x + n / x) / 2) + 1) * (((x + n / x) / 2) + 1),
{
    let q = n / x;
    lemma_fundamental_div_mod(n, x);
    lemma_div_pos_is_pos(n, x);
    let s = x + q;
    let y = s / 2;
    lemma_fundamental_div_mod(s, 2);
    assert(2 * (y + 1) >= s + 1);
    assert((s + 1) * (s + 1) >= 4 * (q * x + x)) by (nonlinear_arith)
        requires
            s == x + q,
            1 <= x,
            0 <= q;
    assert(4 * n < 4 * (q * x + x)) by (nonlinear_arith)
        requires
            n == x * q + n % x,
            n % x < x;
    assert((2 * (y + 1)) * (2 * (y + 1)) >= (s + 1) * (s + 1)) by (nonlinear_arith)
        requires
            2 * (y + 1) >= s + 1,
            s + 1 >= 1;
    assert(n < (y + 1) * (y + 1)) by (nonlinear_arith)
        requires
            4 * n < (2 * (y + 1)) * (2 * (y + 1));
}

/// One iteration of the square-root recurrence, with its overflow argument.
fn newton_step(x: u128, n: u128) -> (y: u128)
    requires
        2 <= n,
        1 <= x <= n / 2,
        (n as int) < (x + 1) * (x + 1),
    ensures
        y == (x + n as int / (x as int)) / 2,
        1 <= y,
        (n as int) < (y + 1) * (y + 1),
{
    proof {
        lemma_div_nonincreasing(n as int, 2);
        lemma_div_non_zero(n as int, x as int);
        lemma_div_nonincreasing(n as int, x as int);
        lemma_fundamental_div_mod(n as int, x as int);
        lemma_div_pos_is_pos(n as int, x as int);
        lemma_fundamental_div_mod(n as int, 2);
        let q = n as int / (x as int);
        // x + q cannot overflow: x * q stays at or below n, and x is at
        // most half of n, so a sum beyond the limit would need x itself
        // to be close to the limit while (x+1)^2 still exceeds n.
        if x + q > u128::MAX {
            if x == 1 {
                assert((x + 1) * (x + 1) == 4) by (nonlinear_arith)
                    requires x == 1;
                assert(false);
            }
            assert(x >= 2);
            assert(false) by (nonlinear_arith)
                requires
                    x >= 2,
                    q >= u128::MAX + 1 - x,
                    (x as int) * q <= n,
                    n <= u128::MAX,
                    2 * (x as int) <= n;
        }
    }
    let q: u128 = n / x;
    let y: u128 = (x + q) / 2;
    proof {
        lemma_fundamental_div_mod(x as int + q as int, 2);
        assert(1 <= y);
        lemma_newton_upper(x as int, n as int);
    }
    y
}

/// Integer square root by Newton's method, deterministic and floating-point
/// free: the result r satisfies r*r <= n < (r+1)*(r+1).
pub fn sqrt(n: u128) -> (r: u128)
    ensures
        is_sqrt(r as int, n as int),
        r == spec_sqrt(n as int),
{
    proof {
        lemma_sqrt_exists(n as nat);
    }
    if n < 2 {
        proof {
            assert(is_sqrt(n as int, n as int)) by (nonlinear_arith)
                requires n < 2;
            lemma_sqrt_unique(n as int, n as int);
        }
        return n;
    }
    let mut x: u128 = n / 2;
    proof {
        lemma_fundamental_div_mod(n as int, 2);
        assert(1 <= x);
        assert(n < (x + 1) * (x + 1)) by (nonlinear_arith)
            requires
                2 <= n,
                2 * (x as int) + 2 > n,
                1 <= x;
    }
    let mut y: u128 = newton_step(x, n);
    while y < x
        invariant
            2 <= n,
            1 <= y,
            1 <= x <= n / 2,
            (n as int) < (x + 1) * (x + 1),
            y == (x + n as int / (x as int)) / 2,
            (n as int) < (y + 1) * (y + 1),
        decreases x,
    {
        x = y;
        y = newton_step(x, n);
    }
    proof {
        // The loop left y >= x, so n / x >= x, hence x * x <= n.
        let q = n as int / (x as int);
        lemma_fundamental_div_mod(x as int + q, 2);
        lemma_fundamental_div_mod(n as int, x as int);
        lemma_div_pos_is_pos(n as int, x as int);
        assert(q >= x) by (nonlinear_arith)
            requires
                y >= x,
                1 <= x,
                0 <= q,
                x as int + q == 2 * (y as int) + (x as int + q) % 2,
                0 <= (x as int + q) % 2 < 2;
        assert(x * x <= n) by (nonlinear_arith)
            requires
                q >= x,
                1 <= x,
                n as int == (x as int) * q + n as int % (x as int),
                0 <= n as int % (x as int);
        lemma_sqrt_unique(x as int, n as int);
    }
    x
}

/// Prices a swap against the current reserves.
///
/// Returns the floored output amount, the protocol's fee cut and the
/// liquidity providers' fee cut. Rejects empty inputs and empty reserves;
/// all widened arithmetic fits in 128 bits, so no overflow abort is
/// possible here.
pub fn calculate_swap_out_amount(
    amm_pool: &AmmPool,
    amount_in: u64,
    source_reserves: u64,
    destination_reserves: u64,
) -> (r: Result<(u64, u64, u64), DloomError>)
    requires
        amm_pool.wf(),
    ensures
        amount_in == 0 ==> r == Err::<(u64, u64, u64), DloomError>(DloomError::ZeroAmount),
        amount_in > 0 && (source_reserves == 0 || destination_reserves == 0) ==> r == Err::<
            (u64, u64, u64),
            DloomError,
        >(DloomError::InsufficientLiquidityForSwap),
        amount_in > 0 && source_reserves > 0 && destination_reserves > 0 ==> r == Ok::<
            (u64, u64, u64),
            DloomError,
        >(
            (
                spec_swap_out(
                    amount_in as int,
                    amm_pool.fee_rate as int,
                    source_reserves as int,
                    destination_reserves as int,
                ) as u64,
                spec_protocol_fee(
                    amount_in as int,
                    amm_pool.fee_rate as int,
                    amm_pool.protocol_fee_share as int,
                ) as u64,
                spec_lp_fee(
                    amount_in as int,
                    amm_pool.fee_rate as int,
                    amm_pool.protocol_fee_share as int,
                ) as u64,
            ),
        ) && spec_swap_out(
            amount_in as int,
            amm_pool.fee_rate as int,
            source_reserves as int,
            destination_reserves as int,
        ) <= destination_reserves && 0 <= spec_protocol_fee(
            amount_in as int,
            amm_pool.fee_rate as int,
            amm_pool.protocol_fee_share as int,
        ) <= spec_total_fee(amount_in as int, amm_pool.fee_rate as int) <= amount_in,
{
    if !(amount_in > 0) {
        return Err(DloomError::ZeroAmount);
    }
    if !(source_reserves > 0 && destination_reserves > 0) {
        return Err(DloomError::InsufficientLiquidityForSwap);
    }

    let amount_in_u128 = amount_in as u128;
    let source_reserves_u128 = source_reserves as u128;
    let destination_reserves_u128 = destination_reserves as u128;

    proof {
        lemma_mul_le(
            amount_in as int,
            u64::MAX as int,
            amm_pool.fee_rate as int,
            BASIS_POINT_MAX as int,
        );
        lemma_rate_cut_le(amount_in as int, amm_pool.fee_rate as int, BASIS_POINT_MAX as int);
    }
    let total_fee = amount_in_u128 * (amm_pool.fee_rate as u128) / BASIS_POINT_MAX;

    proof {
        lemma_mul_le(
            total_fee as int,
            u64::MAX as int,
            amm_pool.protocol_fee_share as int,
            BASIS_POINT_MAX as int,
        );
        lemma_rate_cut_le(
            total_fee as int,
            amm_pool.protocol_fee_share as int,
            BASIS_POINT_MAX as int,
        );
    }
    let protocol_fee = total_fee * (amm_pool.protocol_fee_share as u128) / BASIS_POINT_MAX;

    let lp_fee = total_fee - protocol_fee;
    let amount_in_after_fees = amount_in_u128 - total_fee;

    proof {
        lemma_mul_le(
            destination_reserves as int,
            u64::MAX as int,
            amount_in_after_fees as int,
            u64::MAX as int,
        );
    }
    let numerator = destination_reserves_u128 * amount_in_after_fees;
    let denominator = source_reserves_u128 + amount_in_after_fees;
    let amount_out = numerator / denominator;

    proof {
        // The output never exceeds the destination reserve, so the
        // narrowing casts are exact.
        assert(numerator <= destination_reserves as int * denominator) by (nonlinear_arith)
            requires
                numerator == destination_reserves as int * (amount_in_after_fees as int),
                denominator == source_reserves as int + amount_in_after_fees,
                source_reserves >= 1,
                amount_in_after_fees >= 0,
                destination_reserves >= 0;
        lemma_div_le_bound(numerator as int, denominator as int, destination_reserves as int);
        lemma_div_pos_is_pos(numerator as int, denominator as int);
    }
    Ok((amount_out as u64, protocol_fee as u64, lp_fee as u64))
}

/// Burns lp tokens against the pool: each reserve is paid out pro rata,
/// floored independently. A payout is truncated into 64 bits; burning no
/// more than the whole supply keeps each payout within its reserve, where
/// the truncation is exact.
pub fn calculate_assets_to_withdraw(
    reserves_a: u64,
    reserves_b: u64,
    lp_total_supply: u64,
    lp_tokens_to_burn: u64,
) -> (r: Result<(u64, u64), DloomError>)
    ensures
        lp_total_supply == 0 ==> r == Err::<(u64, u64), DloomError>(
            DloomError::InsufficientLiquidity,
        ),
        lp_total_supply > 0 ==> r == Ok::<(u64, u64), DloomError>(
            (
                (spec_withdraw_amount(
                    reserves_a as int,
                    lp_tokens_to_burn as int,
                    lp_total_supply as int,
                ) % 0x1_0000_0000_0000_0000) as u64,
                (spec_withdraw_amount(
                    reserves_b as int,
                    lp_tokens_to_burn as int,
                    lp_total_supply as int,
                ) % 0x1_0000_0000_0000_0000) as u64,
            ),
        ),
        lp_total_supply > 0 && lp_tokens_to_burn <= lp_total_supply ==> r == Ok::<
            (u64, u64),
            DloomError,
        >(
            (
                spec_withdraw_amount(
                    reserves_a as int,
                    lp_tokens_to_burn as int,
                    lp_total_supply as int,
                ) as u64,
                spec_withdraw_amount(
                    reserves_b as int,
                    lp_tokens_to_burn as int,
                    lp_total_supply as int,
                ) as u64,
            ),
        ) && spec_withdraw_amount(
            reserves_a as int,
            lp_tokens_to_burn as int,
            lp_total_supply as int,
        ) <= reserves_a && spec_withdraw_amount(
            reserves_b as int,
            lp_tokens_to_burn as int,
            lp_total_supply as int,
        ) <= reserves_b,
{
    if !(lp_total_supply > 0) {
        return Err(DloomError::InsufficientLiquidity);
    }

    let reserves_a_u128 = reserves_a as u128;
    let reserves_b_u128 = reserves_b as u128;
    let lp_total_supply_u128 = lp_total_supply as u128;
    let lp_tokens_to_burn_u128 = lp_tokens_to_burn as u128;

    proof {
        lemma_mul_le(reserves_a as int, u64::MAX as int, lp_tokens_to_burn as int, u64::MAX as int);
        lemma_mul_le(reserves_b as int, u64::MAX as int, lp_tokens_to_burn as int, u64::MAX as int);
    }
    let amount_a_to_withdraw = reserves_a_u128 * lp_tokens_to_burn_u128 / lp_total_supply_u128;
    let amount_b_to_withdraw = reserves_b_u128 * lp_tokens_to_burn_u128 / lp_total_supply_u128;

    proof {
        lemma_u128_truncate_u64(amount_a_to_withdraw);
        lemma_u128_truncate_u64(amount_b_to_withdraw);
        lemma_div_pos_is_pos(
            reserves_a as int * lp_tokens_to_burn as int,
            lp_total_supply as int,
        );
        lemma_div_pos_is_pos(
            reserves_b as int * lp_tokens_to_burn as int,
            lp_total_supply as int,
        );
        if lp_tokens_to_burn <= lp_total_supply {
            lemma_mul_le(
                reserves_a as int,
                reserves_a as int,
                lp_tokens_to_burn as int,
                lp_total_supply as int,
            );
            lemma_div_le_bound(
                reserves_a as int * lp_tokens_to_burn as int,
                lp_total_supply as int,
                reserves_a as int,
            );
            lemma_mul_le(
                reserves_b as int,
                reserves_b as int,
                lp_tokens_to_burn as int,
                lp_total_supply as int,
            );
            lemma_div_le_bound(
                reserves_b as int * lp_tokens_to_burn as int,
                lp_total_supply as int,
                reserves_b as int,
            );
            lemma_u128_fits_u64(amount_a_to_withdraw);
            lemma_u128_fits_u64(amount_b_to_withdraw);
        }
    }
    let out_a = #[verifier::truncate] (amount_a_to_withdraw as u64);
    let out_b = #[verifier::truncate] (amount_b_to_withdraw as u64);
    Ok((out_a, out_b))
}

/// Full specification of the lp-mint computation: the optimal deposit pair
/// and the minted amount, or the abort that the checked arithmetic forces.
pub open spec fn spec_lp_mint(
    pool: AmmPool,
    lp_total_supply: u64,
    amount_a_desired: u64,
    amount_b_desired: u64,
) -> Result<(u64, u64, u64), DloomError> {
    if lp_total_supply == 0 {
        Ok(
            (
                amount_a_desired,
                amount_b_desired,
                spec_sqrt(amount_a_desired as int * amount_b_desired) as u64,
            ),
        )
    } else if pool.reserves_a == 0 {
        Err(DloomError::MathOverflow)
    } else {
        let ra = pool.reserves_a as int;
        let rb = pool.reserves_b as int;
        let supply = lp_total_supply as int;
        let optimal_b = amount_a_desired * rb / ra;
        if optimal_b <= amount_b_desired {
            if rb == 0 {
                Err(DloomError::MathOverflow)
            } else {
                Ok(
                    (
                        amount_a_desired,
                        optimal_b as u64,
                        (spec_min(amount_a_desired * supply / ra, optimal_b * supply / rb)
                            % 0x1_0000_0000_0000_0000) as u64,
                    ),
                )
            }
        } else {
            let optimal_a = amount_b_desired * ra / rb;
            Ok(
                (
                    optimal_a as u64,
                    amount_b_desired,
                    (spec_min(optimal_a * supply / ra, amount_b_desired * supply / rb)
                        % 0x1_0000_0000_0000_0000) as u64,
                ),
            )
        }
    }
}

/// Optimal deposit pair and lp tokens to mint for a liquidity deposit.
///
/// A first deposit mints the integer square root of the amount product; a
/// later deposit is trimmed to the current reserve ratio and mints the
/// smaller of the two implied mint ratios, so an imbalanced deposit cannot
/// dilute existing holders.
pub fn calculate_lp_tokens_to_mint(
    amm_pool: &AmmPool,
    lp_total_supply: u64,
    amount_a_desired: u64,
    amount_b_desired: u64,
) -> (r: Result<(u64, u64, u64), DloomError>)
    ensures
        r == spec_lp_mint(*amm_pool, lp_total_supply, amount_a_desired, amount_b_desired),
        lp_total_supply == 0 ==> (r matches Ok(t) && t.0 == amount_a_desired && t.1
            == amount_b_desired && is_sqrt(t.2 as int, amount_a_desired as int * amount_b_desired)),
        lp_total_supply > 0 && amm_pool.reserves_a == 0 ==> r == Err::<(u64, u64, u64), DloomError>(
            DloomError::MathOverflow,
        ),
        lp_total_supply > 0 && amm_pool.reserves_a > 0 ==> ({
            let ra = amm_pool.reserves_a as int;
            let rb = amm_pool.reserves_b as int;
            let supply = lp_total_supply as int;
            let optimal_b = amount_a_desired * rb / ra;
            if optimal_b <= amount_b_desired {
                if rb == 0 {
                    r == Err::<(u64, u64, u64), DloomError>(DloomError::MathOverflow)
                } else {
                    r == Ok::<(u64, u64, u64), DloomError>(
                        (
                            amount_a_desired,
                            optimal_b as u64,
                            (spec_min(
                                amount_a_desired * supply / ra,
                                optimal_b * supply / rb,
                            ) % 0x1_0000_0000_0000_0000) as u64,
                        ),
                    )
                }
            } else {
                {
                    let optimal_a = amount_b_desired * ra / rb;
                    r == Ok::<(u64, u64, u64), DloomError>(
                        (
                            optimal_a as u64,
                            amount_b_desired,
                            (spec_min(
                                optimal_a * supply / ra,
                                amount_b_desired * supply / rb,
                            ) % 0x1_0000_0000_0000_0000) as u64,
                        ),
                    )
                }
            }
        }),
{
    let reserves_a = amm_pool.reserves_a as u128;
    let reserves_b = amm_pool.reserves_b as u128;
    let lp_supply = lp_total_supply as u128;

    if lp_supply == 0 {
        proof {
            lemma_mul_le(
                amount_a_desired as int,
                u64::MAX as int,
                amount_b_desired as int,
                u64::MAX as int,
            );
        }
        let product = (amount_a_desired as u128) * (amount_b_desired as u128);
        let lp_to_mint = sqrt(product);
        proof {
            // The root of a product of two 64-bit factors fits in 64 bits.
            assert(lp_to_mint <= u64::MAX) by (nonlinear_arith)
                requires
                    0 <= lp_to_mint,
                    (lp_to_mint as int) * (lp_to_mint as int) <= product,
                    product <= u64::MAX as int * (u64::MAX as int);
            lemma_u128_fits_u64(lp_to_mint);
        }
        return Ok((amount_a_desired, amount_b_desired, lp_to_mint as u64));
    }

    if reserves_a == 0 {
        return Err(DloomError::MathOverflow);
    }
    proof {
        lemma_mul_le(amount_a_desired as int, u64::MAX as int, reserves_b as int, u64::MAX as int);
        lemma_div_pos_is_pos(amount_a_desired as int * reserves_b as int, reserves_a as int);
    }
    let optimal_amount_b = (amount_a_desired as u128) * reserves_b / reserves_a;

    let (amount_a_to_deposit, amount_b_to_deposit): (u64, u64) = if optimal_amount_b
        <= amount_b_desired as u128 {
        (amount_a_desired, optimal_amount_b as u64)
    } else {
        proof {
            if reserves_b == 0 {
                assert(amount_a_desired as int * reserves_b as int == 0) by (nonlinear_arith)
                    requires reserves_b == 0;
                lemma_div_of0(reserves_a as int);
                assert(false);
            }
            lemma_mul_le(
                amount_b_desired as int,
                u64::MAX as int,
                reserves_a as int,
                u64::MAX as int,
            );
            // The optimal counterpart overshooting b_desired forces the
            // mirrored optimal_a back under a_desired, so the narrowing
            // cast is exact.
            lemma_fundamental_div_mod(
                amount_a_desired as int * reserves_b as int,
                reserves_a as int,
            );
            assert(amount_b_desired as int * reserves_a as int <= amount_a_desired as int
                * reserves_b as int) by (nonlinear_arith)
                requires
                    amount_a_desired as int * reserves_b as int == reserves_a as int * (
                    optimal_amount_b as int) + (amount_a_desired as int * reserves_b as int) % (
                    reserves_a as int),
                    0 <= (amount_a_desired as int * reserves_b as int) % (reserves_a as int),
                    optimal_amount_b > amount_b_desired,
                    reserves_a >= 1;
            lemma_div_le_bound(
                amount_b_desired as int * reserves_a as int,
                reserves_b as int,
                amount_a_desired as int,
            );
        }
        let optimal_amount_a = (amount_b_desired as u128) * reserves_a / reserves_b;
        (optimal_amount_a as u64, amount_b_desired)
    };

    proof {
        lemma_mul_le(amount_a_to_deposit as int, u64::MAX as int, lp_supply as int, u64::MAX as int);
        lemma_mul_le(amount_b_to_deposit as int, u64::MAX as int, lp_supply as int, u64::MAX as int);
    }
    let lp_from_a = (amount_a_to_deposit as u128) * lp_supply / reserves_a;
    if reserves_b == 0 {
        return Err(DloomError::MathOverflow);
    }
    let lp_from_b = (amount_b_to_deposit as u128) * lp_supply / reserves_b;

    let lp_to_mint = if lp_from_a < lp_from_b {
        lp_from_a
    } else {
        lp_from_b
    };
    proof {
        lemma_u128_truncate_u64(lp_to_mint);
    }
    let lp_out = #[verifier::truncate] (lp_to_mint as u64);
    Ok((amount_a_to_deposit, amount_b_to_deposit, lp_out))
}

} // verus!
