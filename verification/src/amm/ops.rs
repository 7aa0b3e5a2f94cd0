//! State transitions of the constant-product pool.
//!
//! Every operation computes all fallible arithmetic first and writes state
//! only on success: a failure leaves pool and position exactly as they were.

use vstd::prelude::*;
use vstd::arithmetic::div_mod::lemma_div_pos_is_pos;

use crate::arith::{lemma_mul_le, lemma_rate_cut_le, lemma_u128_truncate_u64};
use crate::constants::{BASIS_POINT_MAX, PRECISION};
use crate::errors::DloomError;
use crate::amm::math::{
    calculate_assets_to_withdraw, calculate_lp_tokens_to_mint, calculate_swap_out_amount,
    spec_lp_fee, spec_lp_mint, spec_protocol_fee, spec_swap_out, spec_withdraw_amount,
};
use crate::amm::state::{AmmPool, AmmPosition, FeePreference};

verus! {

/// Instantaneous price of token A in B, scaled by the oracle fixed point.
pub open spec fn spec_price_a(p: AmmPool) -> int {
    p.reserves_b * PRECISION / (p.reserves_a as int)
}

/// Instantaneous price of token B in A, scaled by the oracle fixed point.
pub open spec fn spec_price_b(p: AmmPool) -> int {
    p.reserves_a * PRECISION / (p.reserves_b as int)
}

/// Whether an oracle update at `now` integrates a price: the pool has been
/// observed before, time has passed, and both reserves can quote a price.
pub open spec fn spec_oracle_active(p: AmmPool, now: i64) -> bool {
    &&& p.last_update_timestamp != 0
    &&& now - p.last_update_timestamp > 0
    &&& p.reserves_a > 0
    &&& p.reserves_b > 0
}

/// Cumulative price of A after an update at `now`.
pub open spec fn spec_cum_a_after(p: AmmPool, now: i64) -> int {
    if spec_oracle_active(p, now) {
        p.price_a_cumulative + spec_price_a(p) * (now - p.last_update_timestamp)
    } else {
        p.price_a_cumulative as int
    }
}

/// Cumulative price of B after an update at `now`.
pub open spec fn spec_cum_b_after(p: AmmPool, now: i64) -> int {
    if spec_oracle_active(p, now) {
        p.price_b_cumulative + spec_price_b(p) * (now - p.last_update_timestamp)
    } else {
        p.price_b_cumulative as int
    }
}

/// The oracle update succeeds: the elapsed time fits and, when a price is
/// integrated, neither cumulative overflows its 128 bits.
pub open spec fn spec_oracle_ok(p: AmmPool, now: i64) -> bool {
    p.last_update_timestamp == 0 || {
        &&& i64::MIN <= now - p.last_update_timestamp <= i64::MAX
        &&& (spec_oracle_active(p, now) ==> {
            &&& spec_price_a(p) * (now - p.last_update_timestamp) <= u128::MAX
            &&& spec_cum_a_after(p, now) <= u128::MAX
            &&& spec_price_b(p) * (now - p.last_update_timestamp) <= u128::MAX
            &&& spec_cum_b_after(p, now) <= u128::MAX
        })
    }
}

/// The pool after a successful oracle update: cumulatives integrated where
/// a price was available, the timestamp advanced unconditionally.
pub open spec fn spec_oracle_after(p: AmmPool, now: i64) -> AmmPool {
    AmmPool {
        price_a_cumulative: spec_cum_a_after(p, now) as u128,
        price_b_cumulative: spec_cum_b_after(p, now) as u128,
        last_update_timestamp: now,
        ..p
    }
}

/// Folds the time since the last observation into the cumulative price
/// integrals, observing the pre-trade reserves.
///
/// The very first call only records the timestamp. A later call integrates
/// price * elapsed into both cumulatives when time has passed and both
/// reserves are populated, and advances the timestamp regardless, so a
/// reserve-less period is skipped rather than integrated as zero.
pub fn update_oracle(pool: &mut AmmPool, now: i64) -> (r: Result<(), DloomError>)
    ensures
        r matches Ok(u) <==> spec_oracle_ok(*old(pool), now),
        spec_oracle_ok(*old(pool), now) ==> *final(pool) == spec_oracle_after(*old(pool), now),
        !spec_oracle_ok(*old(pool), now) ==> *final(pool) == *old(pool) && r == Err::<
            (),
            DloomError,
        >(DloomError::MathOverflow),
{
    if pool.last_update_timestamp == 0 {
        pool.last_update_timestamp = now;
        return Ok(());
    }

    let time_elapsed = match now.checked_sub(pool.last_update_timestamp) {
        Some(t) => t,
        None => {
            return Err(DloomError::MathOverflow);
        },
    };

    if time_elapsed > 0 && pool.reserves_a > 0 && pool.reserves_b > 0 {
        proof {
            lemma_mul_le(
                pool.reserves_b as int,
                u64::MAX as int,
                PRECISION as int,
                PRECISION as int,
            );
            lemma_mul_le(
                pool.reserves_a as int,
                u64::MAX as int,
                PRECISION as int,
                PRECISION as int,
            );
            lemma_div_pos_is_pos(pool.reserves_b as int * PRECISION, pool.reserves_a as int);
            lemma_div_pos_is_pos(pool.reserves_a as int * PRECISION, pool.reserves_b as int);
        }
        let price_a = (pool.reserves_b as u128) * PRECISION / (pool.reserves_a as u128);
        let delta_a = match price_a.checked_mul(time_elapsed as u128) {
            Some(v) => v,
            None => {
                return Err(DloomError::MathOverflow);
            },
        };
        let new_cum_a = match pool.price_a_cumulative.checked_add(delta_a) {
            Some(v) => v,
            None => {
                return Err(DloomError::MathOverflow);
            },
        };

        let price_b = (pool.reserves_a as u128) * PRECISION / (pool.reserves_b as u128);
        let delta_b = match price_b.checked_mul(time_elapsed as u128) {
            Some(v) => v,
            None => {
                return Err(DloomError::MathOverflow);
            },
        };
        let new_cum_b = match pool.price_b_cumulative.checked_add(delta_b) {
            Some(v) => v,
            None => {
                return Err(DloomError::MathOverflow);
            },
        };

        pool.price_a_cumulative = new_cum_a;
        pool.price_b_cumulative = new_cum_b;
    }

    pool.last_update_timestamp = now;
    Ok(())
}

/// Settlement amounts of a successful swap, for the host to transfer.
#[derive(Clone, Copy, Debug, PartialEq, Eq, Structural)]
pub struct SwapOutcome {
    /// Tokens owed to the trader from the destination vault.
    pub amount_out: u64,
    /// Fee owed to the protocol vault, after the referral cut left.
    pub protocol_fee: u64,
    /// Fee owed to the referrer, zero without one.
    pub referral_fee: u64,
    /// Fee left in the pool for liquidity providers.
    pub lp_fee: u64,
}

/// Source reserve of a swap in the given direction.
pub open spec fn spec_src(p: AmmPool, a_to_b: bool) -> int {
    if a_to_b {
        p.reserves_a as int
    } else {
        p.reserves_b as int
    }
}

/// Destination reserve of a swap in the given direction.
pub open spec fn spec_dst(p: AmmPool, a_to_b: bool) -> int {
    if a_to_b {
        p.reserves_b as int
    } else {
        p.reserves_a as int
    }
}

/// Referral cut of the protocol fee: taken only when a referrer is present,
/// the pool grants a referrer share, and a protocol fee accrued at all.
pub open spec fn spec_referral_fee(p: AmmPool, amount_in: u64, has_referrer: bool) -> int {
    let pfee = spec_protocol_fee(amount_in as int, p.fee_rate as int, p.protocol_fee_share as int);
    if pfee > 0 && p.referrer_fee_share > 0 && has_referrer {
        pfee * p.referrer_fee_share / (BASIS_POINT_MAX as int)
    } else {
        0
    }
}

/// Per-lp-token growth contributed by a swap's lp fee.
pub open spec fn spec_growth_update(lp_fee: int, supply: int) -> int {
    lp_fee * PRECISION / supply
}

/// A swap succeeds: the oracle folds in, the input and both reserves are
/// populated, the output clears the slippage bound, and the grown source
/// reserve and fee accumulator still fit their words.
pub open spec fn spec_swap_ok(
    p: AmmPool,
    lp_supply: u64,
    amount_in: u64,
    min_amount_out: u64,
    a_to_b: bool,
    now: i64,
) -> bool {
    let src = spec_src(p, a_to_b);
    let dst = spec_dst(p, a_to_b);
    let out = spec_swap_out(amount_in as int, p.fee_rate as int, src, dst);
    let pfee = spec_protocol_fee(amount_in as int, p.fee_rate as int, p.protocol_fee_share as int);
    let lpfee = spec_lp_fee(amount_in as int, p.fee_rate as int, p.protocol_fee_share as int);
    &&& spec_oracle_ok(p, now)
    &&& amount_in > 0
    &&& src > 0
    &&& dst > 0
    &&& out >= min_amount_out
    &&& src + amount_in - pfee <= u64::MAX
    &&& (lp_supply > 0 && lpfee > 0 ==> spec_growth_cum(p, a_to_b) + spec_growth_update(
        lpfee,
        lp_supply as int,
    ) <= u128::MAX)
}

/// Fee-growth accumulator on the side the fee was paid in.
pub open spec fn spec_growth_cum(p: AmmPool, a_to_b: bool) -> int {
    if a_to_b {
        p.fee_growth_per_lp_token_a as int
    } else {
        p.fee_growth_per_lp_token_b as int
    }
}

/// The error a failing swap reports, in the order the checks run.
pub open spec fn spec_swap_err(
    p: AmmPool,
    lp_supply: u64,
    amount_in: u64,
    min_amount_out: u64,
    a_to_b: bool,
    now: i64,
) -> DloomError {
    if !spec_oracle_ok(p, now) {
        DloomError::MathOverflow
    } else if amount_in == 0 {
        DloomError::ZeroAmount
    } else if spec_src(p, a_to_b) == 0 || spec_dst(p, a_to_b) == 0 {
        DloomError::InsufficientLiquidityForSwap
    } else if spec_swap_out(amount_in as int, p.fee_rate as int, spec_src(p, a_to_b), spec_dst(p, a_to_b))
        < min_amount_out {
        DloomError::SlippageExceeded
    } else {
        DloomError::MathOverflow
    }
}

/// The pool after a successful swap at `now`: oracle folded in on the
/// pre-trade reserves, the source reserve grown by everything that stays in
/// the pool, the destination reserve shrunk by the output, and the lp fee
/// folded into the fee-growth accumulator of the paid-in token.
pub open spec fn spec_swap_pool_after(
    p: AmmPool,
    lp_supply: u64,
    amount_in: u64,
    a_to_b: bool,
    now: i64,
) -> AmmPool {
    let po = spec_oracle_after(p, now);
    let src = spec_src(p, a_to_b);
    let dst = spec_dst(p, a_to_b);
    let out = spec_swap_out(amount_in as int, p.fee_rate as int, src, dst);
    let pfee = spec_protocol_fee(amount_in as int, p.fee_rate as int, p.protocol_fee_share as int);
    let lpfee = spec_lp_fee(amount_in as int, p.fee_rate as int, p.protocol_fee_share as int);
    let src_after = (src + amount_in - pfee) as u64;
    let dst_after = (dst - out) as u64;
    let grown = if lp_supply > 0 && lpfee > 0 {
        (spec_growth_cum(p, a_to_b) + spec_growth_update(lpfee, lp_supply as int)) as u128
    } else {
        spec_growth_cum(p, a_to_b) as u128
    };
    if a_to_b {
        AmmPool {
            reserves_a: src_after,
            reserves_b: dst_after,
            fee_growth_per_lp_token_a: grown,
            ..po
        }
    } else {
        AmmPool {
            reserves_b: src_after,
            reserves_a: dst_after,
            fee_growth_per_lp_token_b: grown,
            ..po
        }
    }
}

/// Executes a swap against the pool.
///
/// Folds the oracle in on the pre-trade reserves, prices the input, takes
/// the basis-point fee split, enforces the trader's slippage bound, updates
/// the reserves, and accrues the lp fee into the fee-growth accumulator.
/// On any failure the pool is left untouched.
pub fn swap_on_amm(
    pool: &mut AmmPool,
    lp_mint_supply: u64,
    amount_in: u64,
    min_amount_out: u64,
    a_to_b: bool,
    has_referrer: bool,
    now: i64,
) -> (r: Result<SwapOutcome, DloomError>)
    requires
        old(pool).wf(),
    ensures
        final(pool).wf(),
        r matches Ok(o) <==> spec_swap_ok(
            *old(pool),
            lp_mint_supply,
            amount_in,
            min_amount_out,
            a_to_b,
            now,
        ),
        spec_swap_ok(*old(pool), lp_mint_supply, amount_in, min_amount_out, a_to_b, now) ==> ({
            let p = *old(pool);
            let out = spec_swap_out(
                amount_in as int,
                p.fee_rate as int,
                spec_src(p, a_to_b),
                spec_dst(p, a_to_b),
            );
            let pfee = spec_protocol_fee(
                amount_in as int,
                p.fee_rate as int,
                p.protocol_fee_share as int,
            );
            let lpfee = spec_lp_fee(amount_in as int, p.fee_rate as int, p.protocol_fee_share as int);
            let referral = spec_referral_fee(p, amount_in, has_referrer);
            &&& *final(pool) == spec_swap_pool_after(p, lp_mint_supply, amount_in, a_to_b, now)
            &&& r == Ok::<SwapOutcome, DloomError>(
                SwapOutcome {
                    amount_out: out as u64,
                    protocol_fee: (pfee - referral) as u64,
                    referral_fee: referral as u64,
                    lp_fee: lpfee as u64,
                },
            )
        }),
        !spec_swap_ok(*old(pool), lp_mint_supply, amount_in, min_amount_out, a_to_b, now) ==> (
        *final(pool) == *old(pool) && r == Err::<SwapOutcome, DloomError>(
            spec_swap_err(*old(pool), lp_mint_supply, amount_in, min_amount_out, a_to_b, now),
        )),
{
    let mut staged: AmmPool = *pool;

    if let Err(e) = update_oracle(&mut staged, now) {
        return Err(e);
    }

    let (source_reserves, destination_reserves) = if a_to_b {
        (pool.reserves_a, pool.reserves_b)
    } else {
        (pool.reserves_b, pool.reserves_a)
    };

    let (amount_out, protocol_fee, lp_fee) = match calculate_swap_out_amount(
        pool,
        amount_in,
        source_reserves,
        destination_reserves,
    ) {
        Ok(t) => t,
        Err(e) => {
            return Err(e);
        },
    };
    if !(amount_out >= min_amount_out) {
        return Err(DloomError::SlippageExceeded);
    }

    // Referral cut of the protocol fee, zero when no referrer is present.
    let mut actual_protocol_fee = protocol_fee;
    let mut referral_fee: u64 = 0;
    if protocol_fee > 0 && pool.referrer_fee_share > 0 && has_referrer {
        proof {
            lemma_mul_le(
                protocol_fee as int,
                u64::MAX as int,
                pool.referrer_fee_share as int,
                BASIS_POINT_MAX as int,
            );
            lemma_rate_cut_le(
                protocol_fee as int,
                pool.referrer_fee_share as int,
                BASIS_POINT_MAX as int,
            );
        }
        referral_fee = ((protocol_fee as u128) * (pool.referrer_fee_share as u128)
            / BASIS_POINT_MAX) as u64;
        actual_protocol_fee = protocol_fee - referral_fee;
    }

    // Everything but the protocol's cut stays in the pool.
    let amount_added_to_lp_reserves = amount_in - protocol_fee;
    let new_src = match source_reserves.checked_add(amount_added_to_lp_reserves) {
        Some(v) => v,
        None => {
            return Err(DloomError::MathOverflow);
        },
    };
    let new_dst = destination_reserves - amount_out;

    // Accrue the lp fee per outstanding lp token, skipped with no supply.
    let mut new_growth_a = staged.fee_growth_per_lp_token_a;
    let mut new_growth_b = staged.fee_growth_per_lp_token_b;
    if lp_mint_supply > 0 && lp_fee > 0 {
        proof {
            lemma_mul_le(lp_fee as int, u64::MAX as int, PRECISION as int, PRECISION as int);
            lemma_div_pos_is_pos(lp_fee as int * PRECISION, lp_mint_supply as int);
        }
        let fee_growth_update = (lp_fee as u128) * PRECISION / (lp_mint_supply as u128);
        if a_to_b {
            new_growth_a = match staged.fee_growth_per_lp_token_a.checked_add(fee_growth_update) {
                Some(v) => v,
                None => {
                    return Err(DloomError::MathOverflow);
                },
            };
        } else {
            new_growth_b = match staged.fee_growth_per_lp_token_b.checked_add(fee_growth_update) {
                Some(v) => v,
                None => {
                    return Err(DloomError::MathOverflow);
                },
            };
        }
    }

    if a_to_b {
        staged.reserves_a = new_src;
        staged.reserves_b = new_dst;
    } else {
        staged.reserves_b = new_src;
        staged.reserves_a = new_dst;
    }
    staged.fee_growth_per_lp_token_a = new_growth_a;
    staged.fee_growth_per_lp_token_b = new_growth_b;

    *pool = staged;
    Ok(
        SwapOutcome {
            amount_out,
            protocol_fee: actual_protocol_fee,
            referral_fee,
            lp_fee,
        },
    )
}

/// Fee pending to a position on one asset: the growth since its snapshot
/// times its units, per the fixed-point scale. An overflowing product
/// collapses to zero rather than aborting, as does a snapshot ahead of the
/// accumulator.
pub open spec fn spec_pending_fee(growth: u128, snapshot: u128, units: u64) -> int {
    let diff: int = if growth >= snapshot {
        growth - snapshot
    } else {
        0
    };
    if diff * units > u128::MAX {
        0
    } else {
        diff * units / (PRECISION as int)
    }
}

/// The pending fee truncated into a 64-bit token amount.
pub open spec fn spec_pending_fee_u64(growth: u128, snapshot: u128, units: u64) -> int {
    spec_pending_fee(growth, snapshot, units) % 0x1_0000_0000_0000_0000
}

/// Computes one side's pending fee exactly as the settlement paths do.
fn pending_fee(growth: u128, snapshot: u128, units: u64) -> (r: u64)
    ensures
        r == spec_pending_fee_u64(growth, snapshot, units),
{
    let diff = match growth.checked_sub(snapshot) {
        Some(d) => d,
        None => 0,
    };
    let scaled = match diff.checked_mul(units as u128) {
        Some(p) => p / PRECISION,
        None => 0,
    };
    proof {
        lemma_u128_truncate_u64(scaled);
        lemma_div_pos_is_pos(diff as int * units as int, PRECISION as int);
    }
    #[verifier::truncate] (scaled as u64)
}

/// Settles a position's pending fees in Claim mode: both pending amounts
/// are returned for the host to pay out, and the snapshots advance to the
/// pool's current accumulators.
pub fn claim_lp_fees(pool: &AmmPool, position: &mut AmmPosition) -> (r: Result<
    (u64, u64),
    DloomError,
>)
    ensures
        old(position).fee_preference != FeePreference::Claim ==> r == Err::<(u64, u64), DloomError>(
            DloomError::InvalidFeePreference,
        ) && *final(position) == *old(position),
        old(position).fee_preference == FeePreference::Claim ==> r == Ok::<(u64, u64), DloomError>(
            (
                spec_pending_fee_u64(
                    pool.fee_growth_per_lp_token_a,
                    old(position).fee_growth_snapshot_a,
                    old(position).lp_token_amount,
                ) as u64,
                spec_pending_fee_u64(
                    pool.fee_growth_per_lp_token_b,
                    old(position).fee_growth_snapshot_b,
                    old(position).lp_token_amount,
                ) as u64,
            ),
        ) && *final(position) == (AmmPosition {
            fee_growth_snapshot_a: pool.fee_growth_per_lp_token_a,
            fee_growth_snapshot_b: pool.fee_growth_per_lp_token_b,
            ..*old(position)
        }),
{
    if !(matches!(position.fee_preference, FeePreference::Claim)) {
        return Err(DloomError::InvalidFeePreference);
    }
    let fees_a = pending_fee(
        pool.fee_growth_per_lp_token_a,
        position.fee_growth_snapshot_a,
        position.lp_token_amount,
    );
    let fees_b = pending_fee(
        pool.fee_growth_per_lp_token_b,
        position.fee_growth_snapshot_b,
        position.lp_token_amount,
    );
    position.fee_growth_snapshot_a = pool.fee_growth_per_lp_token_a;
    position.fee_growth_snapshot_b = pool.fee_growth_per_lp_token_b;
    Ok((fees_a, fees_b))
}

/// Settles a position's pending fees in AutoCompound mode: the pending
/// amounts are fed into the lp-mint math as a synthetic deposit and the
/// minted tokens accrue to the position.
///
/// The snapshots advance even when the synthetic mint rounds to zero: that
/// dust is forfeited by design, and the call is then a successful no-op.
pub fn reinvest_lp_fees(
    pool: &AmmPool,
    position: &mut AmmPosition,
    lp_total_supply: u64,
) -> (r: Result<u64, DloomError>)
    ensures
        old(position).fee_preference != FeePreference::AutoCompound ==> r == Err::<
            u64,
            DloomError,
        >(DloomError::InvalidFeePreference) && *final(position) == *old(position),
        old(position).fee_preference == FeePreference::AutoCompound ==> ({
            let fa = spec_pending_fee_u64(
                pool.fee_growth_per_lp_token_a,
                old(position).fee_growth_snapshot_a,
                old(position).lp_token_amount,
            ) as u64;
            let fb = spec_pending_fee_u64(
                pool.fee_growth_per_lp_token_b,
                old(position).fee_growth_snapshot_b,
                old(position).lp_token_amount,
            ) as u64;
            match spec_lp_mint(*pool, lp_total_supply, fa, fb) {
                Err(e) => r == Err::<u64, DloomError>(e) && *final(position) == *old(position),
                Ok(t) => {
                    if t.2 == 0 {
                        r == Ok::<u64, DloomError>(0) && *final(position) == (AmmPosition {
                            fee_growth_snapshot_a: pool.fee_growth_per_lp_token_a,
                            fee_growth_snapshot_b: pool.fee_growth_per_lp_token_b,
                            ..*old(position)
                        })
                    } else if old(position).lp_token_amount + t.2 > u64::MAX {
                        r == Err::<u64, DloomError>(DloomError::MathOverflow) && *final(position)
                            == *old(position)
                    } else {
                        r == Ok::<u64, DloomError>(t.2) && *final(position) == (AmmPosition {
                            lp_token_amount: (old(position).lp_token_amount + t.2) as u64,
                            fee_growth_snapshot_a: pool.fee_growth_per_lp_token_a,
                            fee_growth_snapshot_b: pool.fee_growth_per_lp_token_b,
                            ..*old(position)
                        })
                    }
                },
            }
        }),
{
    if !(matches!(position.fee_preference, FeePreference::AutoCompound)) {
        return Err(DloomError::InvalidFeePreference);
    }
    let fees_to_reinvest_a = pending_fee(
        pool.fee_growth_per_lp_token_a,
        position.fee_growth_snapshot_a,
        position.lp_token_amount,
    );
    let fees_to_reinvest_b = pending_fee(
        pool.fee_growth_per_lp_token_b,
        position.fee_growth_snapshot_b,
        position.lp_token_amount,
    );

    let lp_tokens_to_mint = match calculate_lp_tokens_to_mint(
        pool,
        lp_total_supply,
        fees_to_reinvest_a,
        fees_to_reinvest_b,
    ) {
        Ok(t) => t.2,
        Err(e) => {
            return Err(e);
        },
    };

    if lp_tokens_to_mint == 0 {
        position.fee_growth_snapshot_a = pool.fee_growth_per_lp_token_a;
        position.fee_growth_snapshot_b = pool.fee_growth_per_lp_token_b;
        return Ok(0);
    }

    let new_lp_amount = match position.lp_token_amount.checked_add(lp_tokens_to_mint) {
        Some(v) => v,
        None => {
            return Err(DloomError::MathOverflow);
        },
    };
    position.lp_token_amount = new_lp_amount;
    position.fee_growth_snapshot_a = pool.fee_growth_per_lp_token_a;
    position.fee_growth_snapshot_b = pool.fee_growth_per_lp_token_b;
    Ok(lp_tokens_to_mint)
}

/// Deposits liquidity: the oracle folds in, the desired amounts are trimmed
/// to the reserve ratio, the mint is held to the caller's minimum, and the
/// reserves and position grow. Returns (deposited a, deposited b, minted).
pub fn add_amm_liquidity(
    pool: &mut AmmPool,
    position: &mut AmmPosition,
    lp_total_supply: u64,
    amount_a_desired: u64,
    amount_b_desired: u64,
    min_lp_tokens_to_mint: u64,
    now: i64,
) -> (r: Result<(u64, u64, u64), DloomError>)
    requires
        old(pool).wf(),
    ensures
        final(pool).wf(),
        !spec_oracle_ok(*old(pool), now) ==> r == Err::<(u64, u64, u64), DloomError>(
            DloomError::MathOverflow,
        ) && *final(pool) == *old(pool) && *final(position) == *old(position),
        spec_oracle_ok(*old(pool), now) ==> match spec_lp_mint(
            *old(pool),
            lp_total_supply,
            amount_a_desired,
            amount_b_desired,
        ) {
            Err(e) => r == Err::<(u64, u64, u64), DloomError>(e) && *final(pool) == *old(pool)
                && *final(position) == *old(position),
            Ok(t) => {
                if t.2 < min_lp_tokens_to_mint {
                    r == Err::<(u64, u64, u64), DloomError>(DloomError::SlippageExceeded)
                        && *final(pool) == *old(pool) && *final(position) == *old(position)
                } else if old(pool).reserves_a + t.0 > u64::MAX || old(pool).reserves_b + t.1
                    > u64::MAX || old(position).lp_token_amount + t.2 > u64::MAX {
                    r == Err::<(u64, u64, u64), DloomError>(DloomError::MathOverflow)
                        && *final(pool) == *old(pool) && *final(position) == *old(position)
                } else {
                    r == Ok::<(u64, u64, u64), DloomError>(t) && *final(pool) == (AmmPool {
                        reserves_a: (old(pool).reserves_a + t.0) as u64,
                        reserves_b: (old(pool).reserves_b + t.1) as u64,
                        ..spec_oracle_after(*old(pool), now)
                    }) && *final(position) == (AmmPosition {
                        lp_token_amount: (old(position).lp_token_amount + t.2) as u64,
                        ..*old(position)
                    })
                }
            },
        },
{
    let mut staged: AmmPool = *pool;
    if let Err(e) = update_oracle(&mut staged, now) {
        return Err(e);
    }

    let (amount_a, amount_b, lp_to_mint) = match calculate_lp_tokens_to_mint(
        pool,
        lp_total_supply,
        amount_a_desired,
        amount_b_desired,
    ) {
        Ok(t) => t,
        Err(e) => {
            return Err(e);
        },
    };
    if !(lp_to_mint >= min_lp_tokens_to_mint) {
        return Err(DloomError::SlippageExceeded);
    }

    let new_reserves_a = match staged.reserves_a.checked_add(amount_a) {
        Some(v) => v,
        None => {
            return Err(DloomError::MathOverflow);
        },
    };
    let new_reserves_b = match staged.reserves_b.checked_add(amount_b) {
        Some(v) => v,
        None => {
            return Err(DloomError::MathOverflow);
        },
    };
    let new_lp_amount = match position.lp_token_amount.checked_add(lp_to_mint) {
        Some(v) => v,
        None => {
            return Err(DloomError::MathOverflow);
        },
    };

    staged.reserves_a = new_reserves_a;
    staged.reserves_b = new_reserves_b;
    *pool = staged;
    position.lp_token_amount = new_lp_amount;
    Ok((amount_a, amount_b, lp_to_mint))
}

/// Withdraws liquidity: the oracle folds in, both pro-rata payouts are held
/// to the caller's minimums, the burn leaves the position, and the payouts
/// leave the reserves. Returns the two payouts.
pub fn remove_amm_liquidity(
    pool: &mut AmmPool,
    position: &mut AmmPosition,
    lp_total_supply: u64,
    lp_tokens_to_burn: u64,
    min_amount_a_to_receive: u64,
    min_amount_b_to_receive: u64,
    now: i64,
) -> (r: Result<(u64, u64), DloomError>)
    requires
        old(pool).wf(),
    ensures
        final(pool).wf(),
        !spec_oracle_ok(*old(pool), now) ==> r == Err::<(u64, u64), DloomError>(
            DloomError::MathOverflow,
        ) && *final(pool) == *old(pool) && *final(position) == *old(position),
        spec_oracle_ok(*old(pool), now) && lp_total_supply == 0 ==> r == Err::<
            (u64, u64),
            DloomError,
        >(DloomError::InsufficientLiquidity) && *final(pool) == *old(pool) && *final(position)
            == *old(position),
        spec_oracle_ok(*old(pool), now) && lp_total_supply > 0 ==> ({
            let wa = (spec_withdraw_amount(
                old(pool).reserves_a as int,
                lp_tokens_to_burn as int,
                lp_total_supply as int,
            ) % 0x1_0000_0000_0000_0000) as u64;
            let wb = (spec_withdraw_amount(
                old(pool).reserves_b as int,
                lp_tokens_to_burn as int,
                lp_total_supply as int,
            ) % 0x1_0000_0000_0000_0000) as u64;
            if wa < min_amount_a_to_receive || wb < min_amount_b_to_receive {
                r == Err::<(u64, u64), DloomError>(DloomError::SlippageExceeded) && *final(pool)
                    == *old(pool) && *final(position) == *old(position)
            } else if old(position).lp_token_amount < lp_tokens_to_burn || old(pool).reserves_a
                < wa || old(pool).reserves_b < wb {
                r == Err::<(u64, u64), DloomError>(DloomError::MathOverflow) && *final(pool)
                    == *old(pool) && *final(position) == *old(position)
            } else {
                r == Ok::<(u64, u64), DloomError>((wa, wb)) && *final(pool) == (AmmPool {
                    reserves_a: (old(pool).reserves_a - wa) as u64,
                    reserves_b: (old(pool).reserves_b - wb) as u64,
                    ..spec_oracle_after(*old(pool), now)
                }) && *final(position) == (AmmPosition {
                    lp_token_amount: (old(position).lp_token_amount - lp_tokens_to_burn) as u64,
                    ..*old(position)
                })
            }
        }),
{
    let mut staged: AmmPool = *pool;
    if let Err(e) = update_oracle(&mut staged, now) {
        return Err(e);
    }

    let (amount_a_to_withdraw, amount_b_to_withdraw) = match calculate_assets_to_withdraw(
        pool.reserves_a,
        pool.reserves_b,
        lp_total_supply,
        lp_tokens_to_burn,
    ) {
        Ok(t) => t,
        Err(e) => {
            return Err(e);
        },
    };
    if !(amount_a_to_withdraw >= min_amount_a_to_receive) {
        return Err(DloomError::SlippageExceeded);
    }
    if !(amount_b_to_withdraw >= min_amount_b_to_receive) {
        return Err(DloomError::SlippageExceeded);
    }

    let new_lp_amount = match position.lp_token_amount.checked_sub(lp_tokens_to_burn) {
        Some(v) => v,
        None => {
            return Err(DloomError::MathOverflow);
        },
    };
    let new_reserves_a = match staged.reserves_a.checked_sub(amount_a_to_withdraw) {
        Some(v) => v,
        None => {
            return Err(DloomError::MathOverflow);
        },
    };
    let new_reserves_b = match staged.reserves_b.checked_sub(amount_b_to_withdraw) {
        Some(v) => v,
        None => {
            return Err(DloomError::MathOverflow);
        },
    };

    staged.reserves_a = new_reserves_a;
    staged.reserves_b = new_reserves_b;
    *pool = staged;
    position.lp_token_amount = new_lp_amount;
    Ok((amount_a_to_withdraw, amount_b_to_withdraw))
}

} // verus!
