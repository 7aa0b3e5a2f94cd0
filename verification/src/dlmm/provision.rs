//! Position lifecycle of the discretized pool: opening a range, adding
//! liquidity across it, withdrawing, and migrating a position between
//! ranges.
//!
//! Multi-bin operations run against the caller's committed bin set; a set
//! that does not cover exactly the bins the operation touches is refused
//! before any bin is read or written.

use vstd::prelude::*;
use vstd::arithmetic::div_mod::{
    lemma_div_nonincreasing, lemma_div_pos_is_pos, lemma_fundamental_div_mod,
    lemma_mod_multiples_basic,
};

use crate::constants::MAX_BINS_PER_POSITION;
use crate::errors::DloomError;
use crate::dlmm::math::{
    calculate_claimable_amounts, calculate_required_token_amounts, spec_accrued_fee_u64,
    spec_bin_count, spec_claimable_amounts, spec_required_token_amounts,
};
use crate::dlmm::state::{Bin, DlmmPool, Position};

verus! {

/// Larger of two values.
pub open spec fn spec_max_int(a: int, b: int) -> int {
    if a < b {
        b
    } else {
        a
    }
}

/// Whether a bin id is a multiple of the bin step.
pub open spec fn spec_aligned(id: int, step: int) -> bool {
    id % step == 0
}

/// Tests alignment of a bin id to the pool's step.
fn is_aligned(id: i32, step: u16) -> (r: bool)
    requires
        step > 0,
    ensures
        r == spec_aligned(id as int, step as int),
{
    let magnitude: u64 = if id >= 0 {
        id as u64
    } else {
        (-(id as i64)) as u64
    };
    let rem = magnitude % (step as u64);
    proof {
        let s = step as int;
        if id < 0 {
            if rem == 0 {
                lemma_fundamental_div_mod(magnitude as int, s);
                let k = magnitude as int / s;
                assert(id as int == (-k) * s) by (nonlinear_arith)
                    requires
                        magnitude as int == s * k + 0,
                        id as int == -(magnitude as int);
                lemma_mod_multiples_basic(-k, s);
            }
            if id as int % s == 0 {
                lemma_fundamental_div_mod(id as int, s);
                let k = id as int / s;
                assert(magnitude as int == (-k) * s) by (nonlinear_arith)
                    requires
                        id as int == s * k + 0,
                        magnitude as int == -(id as int);
                lemma_mod_multiples_basic(-k, s);
            }
        }
    }
    rem == 0
}

/// Opens a position over an inclusive bin range: the bounds must be
/// ordered, aligned to the pool's bin step, and cover no more bins than
/// allowed. A fresh position holds no liquidity and zeroed snapshots.
pub fn dlmm_open_position(pool: &DlmmPool, lower_bin_id: i32, upper_bin_id: i32) -> (r: Result<
    Position,
    DloomError,
>)
    requires
        pool.wf(),
    ensures
        !(lower_bin_id < upper_bin_id) ==> r == Err::<Position, DloomError>(
            DloomError::InvalidBinRange,
        ),
        lower_bin_id < upper_bin_id && !(spec_aligned(lower_bin_id as int, pool.bin_step as int)
            && spec_aligned(upper_bin_id as int, pool.bin_step as int)) ==> r == Err::<
            Position,
            DloomError,
        >(DloomError::InvalidBinId),
        lower_bin_id < upper_bin_id && spec_aligned(lower_bin_id as int, pool.bin_step as int)
            && spec_aligned(upper_bin_id as int, pool.bin_step as int) && (upper_bin_id
            - lower_bin_id) / (pool.bin_step as int) > MAX_BINS_PER_POSITION ==> r == Err::<
            Position,
            DloomError,
        >(DloomError::RangeTooWide),
        lower_bin_id < upper_bin_id && spec_aligned(lower_bin_id as int, pool.bin_step as int)
            && spec_aligned(upper_bin_id as int, pool.bin_step as int) && (upper_bin_id
            - lower_bin_id) / (pool.bin_step as int) <= MAX_BINS_PER_POSITION ==> r == Ok::<
            Position,
            DloomError,
        >(
            Position {
                lower_bin_id,
                upper_bin_id,
                liquidity: 0,
                fee_growth_snapshot_a: 0,
                fee_growth_snapshot_b: 0,
            },
        ) && (r matches Ok(p) && p.wf()),
{
    if !(lower_bin_id < upper_bin_id) {
        return Err(DloomError::InvalidBinRange);
    }
    if !(is_aligned(lower_bin_id, pool.bin_step) && is_aligned(upper_bin_id, pool.bin_step)) {
        return Err(DloomError::InvalidBinId);
    }
    let range = (upper_bin_id as i64 - lower_bin_id as i64) / (pool.bin_step as i64);
    proof {
        lemma_div_pos_is_pos(upper_bin_id - lower_bin_id, pool.bin_step as int);
        lemma_div_nonincreasing(upper_bin_id - lower_bin_id, pool.bin_step as int);
    }
    if !(range <= MAX_BINS_PER_POSITION as i64) {
        return Err(DloomError::RangeTooWide);
    }
    Ok(
        Position {
            lower_bin_id,
            upper_bin_id,
            liquidity: 0,
            fee_growth_snapshot_a: 0,
            fee_growth_snapshot_b: 0,
        },
    )
}

/// The read-only fee sweep of a withdrawal: per committed bin, the accrued
/// fee of each asset joins a 64-bit running total, and the highest
/// per-unit growth seen feeds the position's next snapshot.
pub open spec fn spec_fee_walk(
    bins: Seq<Bin>,
    position: Position,
    k: int,
    acc_a: int,
    acc_b: int,
    growth_a: int,
    growth_b: int,
) -> Result<(int, int, int, int), DloomError>
    decreases bins.len() - k,
    when 0 <= k <= bins.len()
{
    if k >= bins.len() {
        Ok((acc_a, acc_b, growth_a, growth_b))
    } else {
        let fa = spec_accrued_fee_u64(
            bins[k].fee_growth_per_unit_a,
            position.fee_growth_snapshot_a,
            position.liquidity,
        );
        let fb = spec_accrued_fee_u64(
            bins[k].fee_growth_per_unit_b,
            position.fee_growth_snapshot_b,
            position.liquidity,
        );
        if acc_a + fa > u64::MAX || acc_b + fb > u64::MAX {
            Err(DloomError::MathOverflow)
        } else {
            spec_fee_walk(
                bins,
                position,
                k + 1,
                acc_a + fa,
                acc_b + fb,
                spec_max_int(growth_a, bins[k].fee_growth_per_unit_a as int),
                spec_max_int(growth_b, bins[k].fee_growth_per_unit_b as int),
            )
        }
    }
}

/// Sweeps the committed bins for accrued fees and snapshot candidates.
fn fee_walk(bins: &Vec<Bin>, position: &Position) -> (r: Result<(u64, u64, u128, u128), DloomError>)
    ensures
        match spec_fee_walk(
            bins@,
            *position,
            0,
            0,
            0,
            position.fee_growth_snapshot_a as int,
            position.fee_growth_snapshot_b as int,
        ) {
            Ok(t) => r == Ok::<(u64, u64, u128, u128), DloomError>(
                (t.0 as u64, t.1 as u64, t.2 as u128, t.3 as u128),
            ) && 0 <= t.0 <= u64::MAX && 0 <= t.1 <= u64::MAX && 0 <= t.2 <= u128::MAX && 0 <= t.3
                <= u128::MAX,
            Err(e) => r == Err::<(u64, u64, u128, u128), DloomError>(e),
        },
{
    let mut total_a: u64 = 0;
    let mut total_b: u64 = 0;
    let mut growth_a: u128 = position.fee_growth_snapshot_a;
    let mut growth_b: u128 = position.fee_growth_snapshot_b;
    let mut k: usize = 0;
    while k < bins.len()
        invariant
            k <= bins@.len(),
            spec_fee_walk(
                bins@,
                *position,
                0,
                0,
                0,
                position.fee_growth_snapshot_a as int,
                position.fee_growth_snapshot_b as int,
            ) == spec_fee_walk(
                bins@,
                *position,
                k as int,
                total_a as int,
                total_b as int,
                growth_a as int,
                growth_b as int,
            ),
        decreases bins@.len() - k,
    {
        let bin = bins[k];
        let (fees_a, fees_b) = crate::dlmm::math::calculate_accrued_fees(position, &bin);
        total_a = match total_a.checked_add(fees_a) {
            Some(v) => v,
            None => {
                return Err(DloomError::MathOverflow);
            },
        };
        total_b = match total_b.checked_add(fees_b) {
            Some(v) => v,
            None => {
                return Err(DloomError::MathOverflow);
            },
        };
        if growth_a < bin.fee_growth_per_unit_a {
            growth_a = bin.fee_growth_per_unit_a;
        }
        if growth_b < bin.fee_growth_per_unit_b {
            growth_b = bin.fee_growth_per_unit_b;
        }
        k = k + 1;
    }
    Ok((total_a, total_b, growth_a, growth_b))
}

/// Number of bins a position covers, at the pool's step.
pub fn position_bin_count(pool: &DlmmPool, position: &Position) -> (r: u64)
    requires
        pool.wf(),
        position.wf(),
    ensures
        r == spec_bin_count(
            position.lower_bin_id as int,
            position.upper_bin_id as int,
            pool.bin_step as int,
        ),
        r >= 1,
{
    let diff = (position.upper_bin_id as i64 - position.lower_bin_id as i64) as u64;
    proof {
        lemma_div_pos_is_pos(diff as int, pool.bin_step as int);
        lemma_div_nonincreasing(diff as int, pool.bin_step as int);
    }
    diff / (pool.bin_step as u64) + 1
}

/// Withdraws liquidity from a position.
///
/// The principal follows the per-bin claim rule over the position's range;
/// the committed bins are swept for accrued fees, and the position's new
/// snapshots are the highest per-unit growth observed. Both payouts are
/// held to the caller's minimums. The committed set must cover the
/// position's bins exactly. Bins themselves are only read.
pub fn dlmm_remove_liquidity(
    pool: &mut DlmmPool,
    position: &mut Position,
    bins: &Vec<Bin>,
    liquidity_to_remove: u128,
    min_amount_a: u64,
    min_amount_b: u64,
) -> (r: Result<(u64, u64), DloomError>)
    requires
        old(pool).wf(),
        old(position).wf(),
    ensures
        final(pool).wf(),
        final(position).wf(),
        r is Err ==> *final(pool) == *old(pool) && *final(position) == *old(position),
        liquidity_to_remove == 0 ==> r == Err::<(u64, u64), DloomError>(DloomError::ZeroLiquidity),
        liquidity_to_remove > old(position).liquidity && liquidity_to_remove > 0 ==> r == Err::<
            (u64, u64),
            DloomError,
        >(DloomError::InsufficientLiquidity),
        0 < liquidity_to_remove <= old(position).liquidity && bins@.len() != spec_bin_count(
            old(position).lower_bin_id as int,
            old(position).upper_bin_id as int,
            old(pool).bin_step as int,
        ) ==> r == Err::<(u64, u64), DloomError>(DloomError::BinCacheMismatch),
        0 < liquidity_to_remove <= old(position).liquidity && bins@.len() == spec_bin_count(
            old(position).lower_bin_id as int,
            old(position).upper_bin_id as int,
            old(pool).bin_step as int,
        ) ==> match spec_claimable_amounts(*old(pool), *old(position), liquidity_to_remove as int) {
            Err(e) => r == Err::<(u64, u64), DloomError>(e),
            Ok(principal) => match spec_fee_walk(
                bins@,
                *old(position),
                0,
                0,
                0,
                old(position).fee_growth_snapshot_a as int,
                old(position).fee_growth_snapshot_b as int,
            ) {
                Err(e) => r == Err::<(u64, u64), DloomError>(e),
                Ok(ft) => {
                    let pa = principal.0 % 0x1_0000_0000_0000_0000;
                    let pb = principal.1 % 0x1_0000_0000_0000_0000;
                    if pa + ft.0 > u64::MAX || pb + ft.1 > u64::MAX {
                        r == Err::<(u64, u64), DloomError>(DloomError::MathOverflow)
                    } else {
                        let ta = pa + ft.0;
                        let tb = pb + ft.1;
                        if ta < min_amount_a || tb < min_amount_b {
                            r == Err::<(u64, u64), DloomError>(DloomError::SlippageExceeded)
                        } else if old(pool).reserves_a < ta || old(pool).reserves_b < tb {
                            r == Err::<(u64, u64), DloomError>(DloomError::MathOverflow)
                        } else {
                            r == Ok::<(u64, u64), DloomError>((ta as u64, tb as u64))
                                && *final(pool) == (DlmmPool {
                                reserves_a: (old(pool).reserves_a - ta) as u64,
                                reserves_b: (old(pool).reserves_b - tb) as u64,
                                ..*old(pool)
                            }) && *final(position) == (Position {
                                liquidity: (old(position).liquidity - liquidity_to_remove) as u128,
                                fee_growth_snapshot_a: ft.2 as u128,
                                fee_growth_snapshot_b: ft.3 as u128,
                                ..*old(position)
                            })
                        }
                    }
                },
            },
        },
{
    if !(liquidity_to_remove > 0) {
        return Err(DloomError::ZeroLiquidity);
    }
    if !(liquidity_to_remove <= position.liquidity) {
        return Err(DloomError::InsufficientLiquidity);
    }
    let expected_bins = position_bin_count(pool, position);
    if !(bins.len() as u64 == expected_bins) {
        return Err(DloomError::BinCacheMismatch);
    }

    let (principal_a, principal_b) = match calculate_claimable_amounts(
        pool,
        position,
        liquidity_to_remove,
    ) {
        Ok(t) => t,
        Err(e) => {
            return Err(e);
        },
    };
    let (total_fees_a, total_fees_b, final_growth_a, final_growth_b) = match fee_walk(
        bins,
        position,
    ) {
        Ok(t) => t,
        Err(e) => {
            return Err(e);
        },
    };

    proof {
        crate::arith::lemma_u128_truncate_u64(principal_a);
        crate::arith::lemma_u128_truncate_u64(principal_b);
    }
    let principal_a_u64 = #[verifier::truncate] (principal_a as u64);
    let principal_b_u64 = #[verifier::truncate] (principal_b as u64);

    let total_withdrawal_a = match principal_a_u64.checked_add(total_fees_a) {
        Some(v) => v,
        None => {
            return Err(DloomError::MathOverflow);
        },
    };
    let total_withdrawal_b = match principal_b_u64.checked_add(total_fees_b) {
        Some(v) => v,
        None => {
            return Err(DloomError::MathOverflow);
        },
    };
    if !(total_withdrawal_a >= min_amount_a) || !(total_withdrawal_b >= min_amount_b) {
        return Err(DloomError::SlippageExceeded);
    }
    let new_reserves_a = match pool.reserves_a.checked_sub(total_withdrawal_a) {
        Some(v) => v,
        None => {
            return Err(DloomError::MathOverflow);
        },
    };
    let new_reserves_b = match pool.reserves_b.checked_sub(total_withdrawal_b) {
        Some(v) => v,
        None => {
            return Err(DloomError::MathOverflow);
        },
    };

    pool.reserves_a = new_reserves_a;
    pool.reserves_b = new_reserves_b;
    position.liquidity = position.liquidity - liquidity_to_remove;
    position.fee_growth_snapshot_a = final_growth_a;
    position.fee_growth_snapshot_b = final_growth_b;
    Ok((total_withdrawal_a, total_withdrawal_b))
}

/// The write sweep of a deposit: each committed bin takes the per-bin
/// liquidity, and the highest per-unit growth seen on each side feeds the
/// position's snapshots.
pub open spec fn spec_deposit_walk(
    bins: Seq<Bin>,
    per_bin: int,
    k: int,
    growth_a: int,
    growth_b: int,
) -> Result<(Seq<Bin>, int, int), DloomError>
    decreases bins.len() - k,
    when 0 <= k <= bins.len()
{
    if k >= bins.len() {
        Ok((bins, growth_a, growth_b))
    } else if bins[k].liquidity + per_bin > u128::MAX {
        Err(DloomError::MathOverflow)
    } else {
        spec_deposit_walk(
            bins.update(k, Bin { liquidity: (bins[k].liquidity + per_bin) as u128, ..bins[k] }),
            per_bin,
            k + 1,
            spec_max_int(growth_a, bins[k].fee_growth_per_unit_a as int),
            spec_max_int(growth_b, bins[k].fee_growth_per_unit_b as int),
        )
    }
}

/// Stages the deposit sweep into a fresh bin list.
fn deposit_walk(bins: &Vec<Bin>, per_bin: u128) -> (r: Result<(Vec<Bin>, u128, u128), DloomError>)
    ensures
        match spec_deposit_walk(bins@, per_bin as int, 0, 0, 0) {
            Ok(t) => r matches Ok(o) && o.0@ == t.0 && o.1 == t.1 && o.2 == t.2,
            Err(e) => r == Err::<(Vec<Bin>, u128, u128), DloomError>(e),
        },
{
    let ghost orig: Seq<Bin> = bins@;
    let mut staged: Vec<Bin> = Vec::new();
    let mut growth_a: u128 = 0;
    let mut growth_b: u128 = 0;
    let mut k: usize = 0;
    proof {
        assert(staged@ + orig.skip(0) =~= orig);
    }
    while k < bins.len()
        invariant
            bins@ == orig,
            staged@.len() == k,
            k <= orig.len(),
            spec_deposit_walk(orig, per_bin as int, 0, 0, 0) == spec_deposit_walk(
                staged@ + orig.skip(k as int),
                per_bin as int,
                k as int,
                growth_a as int,
                growth_b as int,
            ),
        decreases orig.len() - k,
    {
        let ghost combined = staged@ + orig.skip(k as int);
        proof {
            assert(combined[k as int] == orig[k as int]);
        }
        let bin = bins[k];
        let new_liquidity = match bin.liquidity.checked_add(per_bin) {
            Some(v) => v,
            None => {
                return Err(DloomError::MathOverflow);
            },
        };
        if growth_a < bin.fee_growth_per_unit_a {
            growth_a = bin.fee_growth_per_unit_a;
        }
        if growth_b < bin.fee_growth_per_unit_b {
            growth_b = bin.fee_growth_per_unit_b;
        }
        let updated = Bin { liquidity: new_liquidity, ..bin };
        staged.push(updated);
        proof {
            assert(staged@ + orig.skip(k as int + 1) =~= combined.update(k as int, updated));
        }
        k = k + 1;
    }
    proof {
        assert(staged@ + orig.skip(orig.len() as int) =~= staged@);
    }
    Ok((staged, growth_a, growth_b))
}

/// The write sweep of a migration's source range: per committed bin, the
/// accrued fees join 128-bit running totals and the per-bin liquidity
/// leaves the bin.
pub open spec fn spec_migrate_out_walk(
    bins: Seq<Bin>,
    position: Position,
    per_bin: int,
    k: int,
    acc_a: int,
    acc_b: int,
) -> Result<(Seq<Bin>, int, int), DloomError>
    decreases bins.len() - k,
    when 0 <= k <= bins.len()
{
    if k >= bins.len() {
        Ok((bins, acc_a, acc_b))
    } else {
        let fa = spec_accrued_fee_u64(
            bins[k].fee_growth_per_unit_a,
            position.fee_growth_snapshot_a,
            position.liquidity,
        );
        let fb = spec_accrued_fee_u64(
            bins[k].fee_growth_per_unit_b,
            position.fee_growth_snapshot_b,
            position.liquidity,
        );
        if acc_a + fa > u128::MAX || acc_b + fb > u128::MAX {
            Err(DloomError::MathOverflow)
        } else if bins[k].liquidity < per_bin {
            Err(DloomError::MathOverflow)
        } else {
            spec_migrate_out_walk(
                bins.update(k, Bin { liquidity: (bins[k].liquidity - per_bin) as u128, ..bins[k] }),
                position,
                per_bin,
                k + 1,
                acc_a + fa,
                acc_b + fb,
            )
        }
    }
}

/// Stages the migration's source sweep into a fresh bin list.
fn migrate_out_walk(bins: &Vec<Bin>, position: &Position, per_bin: u128) -> (r: Result<
    (Vec<Bin>, u128, u128),
    DloomError,
>)
    ensures
        match spec_migrate_out_walk(bins@, *position, per_bin as int, 0, 0, 0) {
            Ok(t) => r matches Ok(o) && o.0@ == t.0 && o.1 == t.1 && o.2 == t.2 && 0 <= t.1
                <= u128::MAX && 0 <= t.2 <= u128::MAX,
            Err(e) => r == Err::<(Vec<Bin>, u128, u128), DloomError>(e),
        },
{
    let ghost orig: Seq<Bin> = bins@;
    let mut staged: Vec<Bin> = Vec::new();
    let mut total_a: u128 = 0;
    let mut total_b: u128 = 0;
    let mut k: usize = 0;
    proof {
        assert(staged@ + orig.skip(0) =~= orig);
    }
    while k < bins.len()
        invariant
            bins@ == orig,
            staged@.len() == k,
            k <= orig.len(),
            spec_migrate_out_walk(orig, *position, per_bin as int, 0, 0, 0)
                == spec_migrate_out_walk(
                staged@ + orig.skip(k as int),
                *position,
                per_bin as int,
                k as int,
                total_a as int,
                total_b as int,
            ),
        decreases orig.len() - k,
    {
        let ghost combined = staged@ + orig.skip(k as int);
        proof {
            assert(combined[k as int] == orig[k as int]);
        }
        let bin = bins[k];
        let (fees_a, fees_b) = crate::dlmm::math::calculate_accrued_fees(position, &bin);
        total_a = match total_a.checked_add(fees_a as u128) {
            Some(v) => v,
            None => {
                return Err(DloomError::MathOverflow);
            },
        };
        total_b = match total_b.checked_add(fees_b as u128) {
            Some(v) => v,
            None => {
                return Err(DloomError::MathOverflow);
            },
        };
        let new_liquidity = match bin.liquidity.checked_sub(per_bin) {
            Some(v) => v,
            None => {
                return Err(DloomError::MathOverflow);
            },
        };
        let updated = Bin { liquidity: new_liquidity, ..bin };
        staged.push(updated);
        proof {
            assert(staged@ + orig.skip(k as int + 1) =~= combined.update(k as int, updated));
        }
        k = k + 1;
    }
    proof {
        assert(staged@ + orig.skip(orig.len() as int) =~= staged@);
    }
    Ok((staged, total_a, total_b))
}

/// Deposits liquidity into a position's range.
///
/// The amount splits evenly over the covered bins (the remainder of the
/// division is not distributed), each committed bin takes its share, and
/// the required token amounts are returned for the host to collect. The
/// committed set must cover the position's bins exactly.
pub fn dlmm_add_liquidity(
    pool: &mut DlmmPool,
    position: &mut Position,
    bins: &mut Vec<Bin>,
    amount_to_deposit: u128,
) -> (r: Result<(u128, u128), DloomError>)
    requires
        old(pool).wf(),
        old(position).wf(),
    ensures
        final(pool).wf(),
        final(position).wf(),
        r is Err ==> *final(pool) == *old(pool) && *final(position) == *old(position)
            && final(bins)@ == old(bins)@,
        amount_to_deposit == 0 ==> r == Err::<(u128, u128), DloomError>(DloomError::ZeroLiquidity),
        amount_to_deposit > 0 && old(bins)@.len() != spec_bin_count(
            old(position).lower_bin_id as int,
            old(position).upper_bin_id as int,
            old(pool).bin_step as int,
        ) ==> r == Err::<(u128, u128), DloomError>(DloomError::BinCacheMismatch),
        amount_to_deposit > 0 && old(bins)@.len() == spec_bin_count(
            old(position).lower_bin_id as int,
            old(position).upper_bin_id as int,
            old(pool).bin_step as int,
        ) ==> match spec_required_token_amounts(
            *old(pool),
            old(position).lower_bin_id as int,
            old(position).upper_bin_id as int,
            amount_to_deposit as int,
        ) {
            Err(e) => r == Err::<(u128, u128), DloomError>(e),
            Ok(req) => {
                if req.0 > u64::MAX || req.1 > u64::MAX || old(pool).reserves_a + req.0 > u64::MAX
                    || old(pool).reserves_b + req.1 > u64::MAX || old(position).liquidity
                    + amount_to_deposit > u128::MAX {
                    r == Err::<(u128, u128), DloomError>(DloomError::MathOverflow)
                } else {
                    let per_bin = amount_to_deposit as int / spec_bin_count(
                        old(position).lower_bin_id as int,
                        old(position).upper_bin_id as int,
                        old(pool).bin_step as int,
                    );
                    match spec_deposit_walk(old(bins)@, per_bin, 0, 0, 0) {
                        Err(e) => r == Err::<(u128, u128), DloomError>(e),
                        Ok(t) => r == Ok::<(u128, u128), DloomError>((req.0 as u128, req.1 as u128))
                            && final(bins)@ == t.0 && *final(pool) == (DlmmPool {
                            reserves_a: (old(pool).reserves_a + req.0) as u64,
                            reserves_b: (old(pool).reserves_b + req.1) as u64,
                            ..*old(pool)
                        }) && *final(position) == (Position {
                            liquidity: (old(position).liquidity + amount_to_deposit) as u128,
                            fee_growth_snapshot_a: spec_max_int(
                                old(position).fee_growth_snapshot_a as int,
                                t.1,
                            ) as u128,
                            fee_growth_snapshot_b: spec_max_int(
                                old(position).fee_growth_snapshot_b as int,
                                t.2,
                            ) as u128,
                            ..*old(position)
                        }),
                    }
                }
            },
        },
{
    if !(amount_to_deposit > 0) {
        return Err(DloomError::ZeroLiquidity);
    }
    let expected_bins = position_bin_count(pool, position);
    if !(bins.len() as u64 == expected_bins) {
        return Err(DloomError::BinCacheMismatch);
    }

    let (required_a, required_b) = match calculate_required_token_amounts(
        pool,
        position.lower_bin_id,
        position.upper_bin_id,
        amount_to_deposit,
    ) {
        Ok(t) => t,
        Err(e) => {
            return Err(e);
        },
    };
    if required_a > u64::MAX as u128 || required_b > u64::MAX as u128 {
        return Err(DloomError::MathOverflow);
    }
    let new_reserves_a = match pool.reserves_a.checked_add(required_a as u64) {
        Some(v) => v,
        None => {
            return Err(DloomError::MathOverflow);
        },
    };
    let new_reserves_b = match pool.reserves_b.checked_add(required_b as u64) {
        Some(v) => v,
        None => {
            return Err(DloomError::MathOverflow);
        },
    };
    let new_liquidity = match position.liquidity.checked_add(amount_to_deposit) {
        Some(v) => v,
        None => {
            return Err(DloomError::MathOverflow);
        },
    };

    proof {
        lemma_div_pos_is_pos(amount_to_deposit as int, expected_bins as int);
        lemma_div_nonincreasing(amount_to_deposit as int, expected_bins as int);
    }
    let per_bin = amount_to_deposit / (expected_bins as u128);
    let (staged_bins, walk_growth_a, walk_growth_b) = match deposit_walk(bins, per_bin) {
        Ok(t) => t,
        Err(e) => {
            return Err(e);
        },
    };

    pool.reserves_a = new_reserves_a;
    pool.reserves_b = new_reserves_b;
    position.liquidity = new_liquidity;
    if position.fee_growth_snapshot_a < walk_growth_a {
        position.fee_growth_snapshot_a = walk_growth_a;
    }
    if position.fee_growth_snapshot_b < walk_growth_b {
        position.fee_growth_snapshot_b = walk_growth_b;
    }
    *bins = staged_bins;
    Ok((required_a, required_b))
}

/// Migrates a position's whole liquidity into a new range, atomically.
///
/// The old range's principal and accrued fees are claimed, the new range's
/// requirement is computed at current prices, and the surplus of each
/// asset - claimable minus required - must be non-negative and clear the
/// caller's minimums: a migration can only rebalance already-owned value,
/// never increase exposure. On success the old position empties, the new
/// position takes the moved liquidity with snapshots from the bins it now
/// covers, and the surpluses are returned for payout.
pub fn dlmm_modify_liquidity(
    pool: &mut DlmmPool,
    old_position: &mut Position,
    new_position: &mut Position,
    old_bins: &mut Vec<Bin>,
    new_bins: &mut Vec<Bin>,
    min_surplus_a_out: u64,
    min_surplus_b_out: u64,
) -> (r: Result<(u64, u64), DloomError>)
    requires
        old(pool).wf(),
        old(old_position).wf(),
        old(new_position).wf(),
    ensures
        final(pool).wf(),
        final(old_position).wf(),
        final(new_position).wf(),
        r is Err ==> *final(pool) == *old(pool) && *final(old_position) == *old(old_position)
            && *final(new_position) == *old(new_position) && final(old_bins)@ == old(old_bins)@
            && final(new_bins)@ == old(new_bins)@,
        old(old_bins)@.len() != spec_bin_count(
            old(old_position).lower_bin_id as int,
            old(old_position).upper_bin_id as int,
            old(pool).bin_step as int,
        ) ==> r == Err::<(u64, u64), DloomError>(DloomError::BinCacheMismatch),
        old(old_bins)@.len() == spec_bin_count(
            old(old_position).lower_bin_id as int,
            old(old_position).upper_bin_id as int,
            old(pool).bin_step as int,
        ) && old(new_bins)@.len() != spec_bin_count(
            old(new_position).lower_bin_id as int,
            old(new_position).upper_bin_id as int,
            old(pool).bin_step as int,
        ) ==> r == Err::<(u64, u64), DloomError>(DloomError::BinCacheMismatch),
        old(old_bins)@.len() == spec_bin_count(
            old(old_position).lower_bin_id as int,
            old(old_position).upper_bin_id as int,
            old(pool).bin_step as int,
        ) && old(new_bins)@.len() == spec_bin_count(
            old(new_position).lower_bin_id as int,
            old(new_position).upper_bin_id as int,
            old(pool).bin_step as int,
        ) ==> ({
            let liquidity_to_move = old(old_position).liquidity;
            let count_old = spec_bin_count(
                old(old_position).lower_bin_id as int,
                old(old_position).upper_bin_id as int,
                old(pool).bin_step as int,
            );
            let count_new = spec_bin_count(
                old(new_position).lower_bin_id as int,
                old(new_position).upper_bin_id as int,
                old(pool).bin_step as int,
            );
            if liquidity_to_move == 0 {
                r == Err::<(u64, u64), DloomError>(DloomError::PositionNotEmpty)
            } else {
                match spec_claimable_amounts(
                    *old(pool),
                    *old(old_position),
                    liquidity_to_move as int,
                ) {
                    Err(e) => r == Err::<(u64, u64), DloomError>(e),
                    Ok(principal) => match spec_migrate_out_walk(
                        old(old_bins)@,
                        *old(old_position),
                        liquidity_to_move as int / count_old,
                        0,
                        0,
                        0,
                    ) {
                        Err(e) => r == Err::<(u64, u64), DloomError>(e),
                        Ok(out_walk) => {
                            if principal.0 + out_walk.1 > u128::MAX || principal.1 + out_walk.2
                                > u128::MAX {
                                r == Err::<(u64, u64), DloomError>(DloomError::MathOverflow)
                            } else {
                                let claimable_a = principal.0 + out_walk.1;
                                let claimable_b = principal.1 + out_walk.2;
                                match spec_required_token_amounts(
                                    *old(pool),
                                    old(new_position).lower_bin_id as int,
                                    old(new_position).upper_bin_id as int,
                                    liquidity_to_move as int,
                                ) {
                                    Err(e) => r == Err::<(u64, u64), DloomError>(e),
                                    Ok(req) => {
                                        if claimable_a < req.0 || claimable_b < req.1 {
                                            r == Err::<(u64, u64), DloomError>(
                                                DloomError::MathOverflow,
                                            )
                                        } else {
                                            let surplus_a = claimable_a - req.0;
                                            let surplus_b = claimable_b - req.1;
                                            if surplus_a < min_surplus_a_out || surplus_b
                                                < min_surplus_b_out {
                                                r == Err::<(u64, u64), DloomError>(
                                                    DloomError::SlippageExceeded,
                                                )
                                            } else {
                                                let sa = surplus_a % 0x1_0000_0000_0000_0000;
                                                let sb = surplus_b % 0x1_0000_0000_0000_0000;
                                                if old(pool).reserves_a < sa
                                                    || old(pool).reserves_b < sb {
                                                    r == Err::<(u64, u64), DloomError>(
                                                        DloomError::MathOverflow,
                                                    )
                                                } else if old(new_position).liquidity
                                                    + liquidity_to_move > u128::MAX {
                                                    r == Err::<(u64, u64), DloomError>(
                                                        DloomError::MathOverflow,
                                                    )
                                                } else {
                                                    match spec_deposit_walk(
                                                        old(new_bins)@,
                                                        liquidity_to_move as int / count_new,
                                                        0,
                                                        0,
                                                        0,
                                                    ) {
                                                        Err(e) => r == Err::<(u64, u64), DloomError>(
                                                            e,
                                                        ),
                                                        Ok(in_walk) => r == Ok::<
                                                            (u64, u64),
                                                            DloomError,
                                                        >((sa as u64, sb as u64))
                                                            && final(old_bins)@
                                                            == out_walk.0 && final(new_bins)@
                                                            == in_walk.0 && *final(pool) == (
                                                        DlmmPool {
                                                            reserves_a: (old(pool).reserves_a
                                                                - sa) as u64,
                                                            reserves_b: (old(pool).reserves_b
                                                                - sb) as u64,
                                                            ..*old(pool)
                                                        }) && *final(old_position) == (Position {
                                                            liquidity: 0,
                                                            ..*old(old_position)
                                                        }) && *final(new_position) == (Position {
                                                            liquidity: (old(new_position).liquidity
                                                                + liquidity_to_move) as u128,
                                                            fee_growth_snapshot_a: in_walk.1 as u128,
                                                            fee_growth_snapshot_b: in_walk.2 as u128,
                                                            ..*old(new_position)
                                                        }),
                                                    }
                                                }
                                            }
                                        }
                                    },
                                }
                            }
                        },
                    },
                }
            }
        }),
{
    let expected_old_bins = position_bin_count(pool, old_position);
    if !(old_bins.len() as u64 == expected_old_bins) {
        return Err(DloomError::BinCacheMismatch);
    }
    let expected_new_bins = position_bin_count(pool, new_position);
    if !(new_bins.len() as u64 == expected_new_bins) {
        return Err(DloomError::BinCacheMismatch);
    }

    let liquidity_to_move = old_position.liquidity;
    if !(liquidity_to_move > 0) {
        return Err(DloomError::PositionNotEmpty);
    }

    let (principal_a, principal_b) = match calculate_claimable_amounts(
        pool,
        old_position,
        liquidity_to_move,
    ) {
        Ok(t) => t,
        Err(e) => {
            return Err(e);
        },
    };

    proof {
        lemma_div_pos_is_pos(liquidity_to_move as int, expected_old_bins as int);
        lemma_div_nonincreasing(liquidity_to_move as int, expected_old_bins as int);
    }
    let liquidity_per_old_bin = liquidity_to_move / (expected_old_bins as u128);
    let (staged_old_bins, total_fees_a, total_fees_b) = match migrate_out_walk(
        old_bins,
        old_position,
        liquidity_per_old_bin,
    ) {
        Ok(t) => t,
        Err(e) => {
            return Err(e);
        },
    };

    let total_claimable_a = match principal_a.checked_add(total_fees_a) {
        Some(v) => v,
        None => {
            return Err(DloomError::MathOverflow);
        },
    };
    let total_claimable_b = match principal_b.checked_add(total_fees_b) {
        Some(v) => v,
        None => {
            return Err(DloomError::MathOverflow);
        },
    };

    let (required_a, required_b) = match calculate_required_token_amounts(
        pool,
        new_position.lower_bin_id,
        new_position.upper_bin_id,
        liquidity_to_move,
    ) {
        Ok(t) => t,
        Err(e) => {
            return Err(e);
        },
    };

    let surplus_a = match total_claimable_a.checked_sub(required_a) {
        Some(v) => v,
        None => {
            return Err(DloomError::MathOverflow);
        },
    };
    let surplus_b = match total_claimable_b.checked_sub(required_b) {
        Some(v) => v,
        None => {
            return Err(DloomError::MathOverflow);
        },
    };
    if !(surplus_a >= min_surplus_a_out as u128 && surplus_b >= min_surplus_b_out as u128) {
        return Err(DloomError::SlippageExceeded);
    }

    proof {
        crate::arith::lemma_u128_truncate_u64(surplus_a);
        crate::arith::lemma_u128_truncate_u64(surplus_b);
    }
    let surplus_a_u64 = #[verifier::truncate] (surplus_a as u64);
    let surplus_b_u64 = #[verifier::truncate] (surplus_b as u64);
    let new_reserves_a = match pool.reserves_a.checked_sub(surplus_a_u64) {
        Some(v) => v,
        None => {
            return Err(DloomError::MathOverflow);
        },
    };
    let new_reserves_b = match pool.reserves_b.checked_sub(surplus_b_u64) {
        Some(v) => v,
        None => {
            return Err(DloomError::MathOverflow);
        },
    };
    let new_position_liquidity = match new_position.liquidity.checked_add(liquidity_to_move) {
        Some(v) => v,
        None => {
            return Err(DloomError::MathOverflow);
        },
    };

    proof {
        lemma_div_pos_is_pos(liquidity_to_move as int, expected_new_bins as int);
        lemma_div_nonincreasing(liquidity_to_move as int, expected_new_bins as int);
    }
    let liquidity_per_new_bin = liquidity_to_move / (expected_new_bins as u128);
    let (staged_new_bins, snapshot_a, snapshot_b) = match deposit_walk(
        new_bins,
        liquidity_per_new_bin,
    ) {
        Ok(t) => t,
        Err(e) => {
            return Err(e);
        },
    };

    pool.reserves_a = new_reserves_a;
    pool.reserves_b = new_reserves_b;
    old_position.liquidity = 0;
    new_position.liquidity = new_position_liquidity;
    new_position.fee_growth_snapshot_a = snapshot_a;
    new_position.fee_growth_snapshot_b = snapshot_b;
    *old_bins = staged_old_bins;
    *new_bins = staged_new_bins;
    Ok((surplus_a_u64, surplus_b_u64))
}

} // verus!
