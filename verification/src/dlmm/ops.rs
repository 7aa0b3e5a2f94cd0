//! Multi-bin swap routing and the state transitions of the discretized
//! pool.
//!
//! The router walks consecutive bin ids against a caller-committed, ordered
//! bin set: running past the committed set with input left is an error, not
//! a silent extension. Every operation computes all fallible arithmetic
//! before any state write.

use vstd::prelude::*;
use vstd::arithmetic::div_mod::{lemma_div_nonincreasing, lemma_div_pos_is_pos};

use crate::arith::{lemma_rate_cut_le, lemma_u128_truncate_u64};
use crate::constants::{BASIS_POINT_MAX, PRECISION};
use crate::errors::DloomError;
use crate::dlmm::math::{get_price_at_bin, spec_price_at_bin};
use crate::dlmm::state::{Bin, DlmmPool};

verus! {

/// Smaller of two values.
pub open spec fn spec_min_int(a: int, b: int) -> int {
    if a < b {
        a
    } else {
        b
    }
}

/// One bin of the downward (A-in, B-out) walk, at the bin's fixed price:
/// either the bin offers no counter-asset and is passed over untouched, or
/// a chunk trades: the fee split is taken from the whole remaining input,
/// the output is capped by what the bin offers, the consumed input joins
/// the bin's liquidity, and the lp fee bumps the bin's per-unit growth.
/// Err marks an abort of the checked arithmetic.
pub open spec fn spec_step_down(
    fee_rate: int,
    protocol_fee_share: int,
    bin: Bin,
    price: int,
    remaining: int,
) -> Result<(Bin, int, int, int), DloomError> {
    let bpm = BASIS_POINT_MAX as int;
    let scale = PRECISION as int;
    if bin.liquidity * price > u128::MAX {
        Err(DloomError::MathOverflow)
    } else {
        let available_b = bin.liquidity * price / scale;
        if available_b == 0 {
            Ok((bin, 0, 0, remaining))
        } else if remaining * fee_rate > u128::MAX {
            Err(DloomError::MathOverflow)
        } else {
            let total_fee = remaining * fee_rate / bpm;
            if total_fee * protocol_fee_share > u128::MAX {
                Err(DloomError::MathOverflow)
            } else {
                let protocol_fee = total_fee * protocol_fee_share / bpm;
                let lp_fee = total_fee - protocol_fee;
                let net = remaining - total_fee;
                if net * price > u128::MAX {
                    Err(DloomError::MathOverflow)
                } else {
                    let out = spec_min_int(net * price / scale, available_b);
                    if out * scale > u128::MAX || price == 0 {
                        Err(DloomError::MathOverflow)
                    } else {
                        let consumed = out * scale / price;
                        if consumed * bpm > u128::MAX || fee_rate == bpm {
                            Err(DloomError::MathOverflow)
                        } else {
                            let actual_in = consumed * bpm / (bpm - fee_rate);
                            if lp_fee * scale > u128::MAX {
                                Err(DloomError::MathOverflow)
                            } else {
                                let growth_update = lp_fee * scale / (bin.liquidity as int);
                                if bin.fee_growth_per_unit_b + growth_update > u128::MAX {
                                    Err(DloomError::MathOverflow)
                                } else if bin.liquidity + consumed > u128::MAX {
                                    Err(DloomError::MathOverflow)
                                } else if actual_in > remaining {
                                    Err(DloomError::MathOverflow)
                                } else {
                                    Ok(
                                        (
                                            Bin {
                                                liquidity: (bin.liquidity + consumed) as u128,
                                                fee_growth_per_unit_b: (bin.fee_growth_per_unit_b
                                                    + growth_update) as u128,
                                                ..bin
                                            },
                                            out,
                                            protocol_fee,
                                            remaining - actual_in,
                                        ),
                                    )
                                }
                            }
                        }
                    }
                }
            }
        }
    }
}

/// One bin of the upward (B-in, A-out) walk: the bin's liquidity itself is
/// the available counter-asset, the output leaves the bin's liquidity, and
/// the lp fee bumps the bin's A-side per-unit growth.
pub open spec fn spec_step_up(
    fee_rate: int,
    protocol_fee_share: int,
    bin: Bin,
    price: int,
    remaining: int,
) -> Result<(Bin, int, int, int), DloomError> {
    let bpm = BASIS_POINT_MAX as int;
    let scale = PRECISION as int;
    let available_a = bin.liquidity as int;
    if available_a == 0 {
        Ok((bin, 0, 0, remaining))
    } else if remaining * fee_rate > u128::MAX {
        Err(DloomError::MathOverflow)
    } else {
        let total_fee = remaining * fee_rate / bpm;
        if total_fee * protocol_fee_share > u128::MAX {
            Err(DloomError::MathOverflow)
        } else {
            let protocol_fee = total_fee * protocol_fee_share / bpm;
            let lp_fee = total_fee - protocol_fee;
            let net = remaining - total_fee;
            if net * scale > u128::MAX || price == 0 {
                Err(DloomError::MathOverflow)
            } else {
                let out = spec_min_int(net * scale / price, available_a);
                if out * price > u128::MAX {
                    Err(DloomError::MathOverflow)
                } else {
                    let consumed = out * price / scale;
                    if consumed * bpm > u128::MAX || fee_rate == bpm {
                        Err(DloomError::MathOverflow)
                    } else {
                        let actual_in = consumed * bpm / (bpm - fee_rate);
                        if lp_fee * scale > u128::MAX {
                            Err(DloomError::MathOverflow)
                        } else {
                            let growth_update = lp_fee * scale / (bin.liquidity as int);
                            if bin.fee_growth_per_unit_a + growth_update > u128::MAX {
                                Err(DloomError::MathOverflow)
                            } else if actual_in > remaining {
                                Err(DloomError::MathOverflow)
                            } else {
                                Ok(
                                    (
                                        Bin {
                                            liquidity: (bin.liquidity - out) as u128,
                                            fee_growth_per_unit_a: (bin.fee_growth_per_unit_a
                                                + growth_update) as u128,
                                            ..bin
                                        },
                                        out,
                                        protocol_fee,
                                        remaining - actual_in,
                                    ),
                                )
                            }
                        }
                    }
                }
            }
        }
    }
}

/// The router's walk over the committed bin set: stops once the input is
/// exhausted, prices each visited bin, applies the direction's step, sums
/// output and protocol fee, and advances one bin id per visited bin.
/// Running out of committed bins with input left fails the swap.
pub open spec fn spec_route(
    pool: DlmmPool,
    bins: Seq<Bin>,
    k: int,
    bin_id: int,
    remaining: int,
    out_acc: int,
    pfee_acc: int,
    a_to_b: bool,
) -> Result<(Seq<Bin>, int, int, int), DloomError>
    decreases bins.len() - k,
    when 0 <= k <= bins.len()
{
    if remaining == 0 {
        Ok((bins, out_acc, pfee_acc, bin_id))
    } else if k >= bins.len() {
        Err(DloomError::InsufficientLiquidityForSwap)
    } else {
        match spec_price_at_bin(bin_id, pool.bin_step as int) {
            Err(e) => Err(e),
            Ok(price) => {
                let stepped = if a_to_b {
                    spec_step_down(
                        pool.fee_rate as int,
                        pool.protocol_fee_share as int,
                        bins[k],
                        price,
                        remaining,
                    )
                } else {
                    spec_step_up(
                        pool.fee_rate as int,
                        pool.protocol_fee_share as int,
                        bins[k],
                        price,
                        remaining,
                    )
                };
                match stepped {
                    Err(e) => Err(e),
                    Ok(t) => {
                        if pfee_acc + t.2 > u128::MAX || out_acc + t.1 > u128::MAX {
                            Err(DloomError::MathOverflow)
                        } else {
                            let next_id = if a_to_b {
                                bin_id - 1
                            } else {
                                bin_id + 1
                            };
                            if next_id < i32::MIN || next_id > i32::MAX {
                                Err(DloomError::MathOverflow)
                            } else {
                                spec_route(
                                    pool,
                                    bins.update(k, t.0),
                                    k + 1,
                                    next_id,
                                    t.3,
                                    out_acc + t.1,
                                    pfee_acc + t.2,
                                    a_to_b,
                                )
                            }
                        }
                    },
                }
            },
        }
    }
}

/// Executes one downward step against a bin, mirroring the checked
/// arithmetic of the walk's specification.
fn swap_step_down(
    fee_rate: u16,
    protocol_fee_share: u16,
    bin: Bin,
    price: u128,
    remaining: u128,
) -> (r: Result<(Bin, u128, u128, u128), DloomError>)
    requires
        fee_rate <= BASIS_POINT_MAX,
        protocol_fee_share <= BASIS_POINT_MAX,
    ensures
        match spec_step_down(fee_rate as int, protocol_fee_share as int, bin, price as int, remaining as int) {
            Ok(t) => r == Ok::<(Bin, u128, u128, u128), DloomError>(
                (t.0, t.1 as u128, t.2 as u128, t.3 as u128),
            ) && 0 <= t.1 <= u128::MAX && 0 <= t.2 <= u128::MAX && 0 <= t.3 <= remaining,
            Err(e) => r == Err::<(Bin, u128, u128, u128), DloomError>(e),
        },
{
    let scaled_liq = match bin.liquidity.checked_mul(price) {
        Some(v) => v,
        None => {
            return Err(DloomError::MathOverflow);
        },
    };
    proof {
        lemma_div_pos_is_pos(scaled_liq as int, PRECISION as int);
        lemma_div_nonincreasing(scaled_liq as int, PRECISION as int);
    }
    let available_b = scaled_liq / PRECISION;
    if available_b == 0 {
        return Ok((bin, 0, 0, remaining));
    }

    // The bin offers output, so its liquidity and price are both positive.
    proof {
        if bin.liquidity == 0 {
            assert(bin.liquidity * price == 0) by (nonlinear_arith)
                requires bin.liquidity == 0;
            vstd::arithmetic::div_mod::lemma_div_of0(PRECISION as int);
            assert(false);
        }
    }

    let total_fee = match remaining.checked_mul(fee_rate as u128) {
        Some(v) => v / BASIS_POINT_MAX,
        None => {
            return Err(DloomError::MathOverflow);
        },
    };
    proof {
        lemma_rate_cut_le(remaining as int, fee_rate as int, BASIS_POINT_MAX as int);
    }
    let protocol_fee = match total_fee.checked_mul(protocol_fee_share as u128) {
        Some(v) => v / BASIS_POINT_MAX,
        None => {
            return Err(DloomError::MathOverflow);
        },
    };
    proof {
        lemma_rate_cut_le(total_fee as int, protocol_fee_share as int, BASIS_POINT_MAX as int);
    }
    let lp_fee = total_fee - protocol_fee;
    let net = remaining - total_fee;

    let out_raw = match net.checked_mul(price) {
        Some(v) => v / PRECISION,
        None => {
            return Err(DloomError::MathOverflow);
        },
    };
    proof {
        lemma_div_pos_is_pos(net as int * price as int, PRECISION as int);
        lemma_div_nonincreasing(net as int * price as int, PRECISION as int);
    }
    let out = if out_raw < available_b {
        out_raw
    } else {
        available_b
    };

    let out_scaled = match out.checked_mul(PRECISION) {
        Some(v) => v,
        None => {
            return Err(DloomError::MathOverflow);
        },
    };
    if price == 0 {
        return Err(DloomError::MathOverflow);
    }
    proof {
        lemma_div_pos_is_pos(out_scaled as int, price as int);
        lemma_div_nonincreasing(out_scaled as int, price as int);
    }
    let consumed = out_scaled / price;

    let consumed_scaled = match consumed.checked_mul(BASIS_POINT_MAX) {
        Some(v) => v,
        None => {
            return Err(DloomError::MathOverflow);
        },
    };
    if fee_rate as u128 == BASIS_POINT_MAX {
        return Err(DloomError::MathOverflow);
    }
    proof {
        lemma_div_pos_is_pos(
            consumed_scaled as int,
            BASIS_POINT_MAX as int - fee_rate as int,
        );
    }
    let actual_in = consumed_scaled / (BASIS_POINT_MAX - fee_rate as u128);

    let growth_scaled = match lp_fee.checked_mul(PRECISION) {
        Some(v) => v,
        None => {
            return Err(DloomError::MathOverflow);
        },
    };
    proof {
        lemma_div_pos_is_pos(growth_scaled as int, bin.liquidity as int);
    }
    let growth_update = growth_scaled / bin.liquidity;
    let new_growth_b = match bin.fee_growth_per_unit_b.checked_add(growth_update) {
        Some(v) => v,
        None => {
            return Err(DloomError::MathOverflow);
        },
    };
    let new_liquidity = match bin.liquidity.checked_add(consumed) {
        Some(v) => v,
        None => {
            return Err(DloomError::MathOverflow);
        },
    };
    let new_remaining = match remaining.checked_sub(actual_in) {
        Some(v) => v,
        None => {
            return Err(DloomError::MathOverflow);
        },
    };
    Ok(
        (
            Bin { liquidity: new_liquidity, fee_growth_per_unit_b: new_growth_b, ..bin },
            out,
            protocol_fee,
            new_remaining,
        ),
    )
}

/// Executes one upward step against a bin, mirroring the checked
/// arithmetic of the walk's specification.
fn swap_step_up(
    fee_rate: u16,
    protocol_fee_share: u16,
    bin: Bin,
    price: u128,
    remaining: u128,
) -> (r: Result<(Bin, u128, u128, u128), DloomError>)
    requires
        fee_rate <= BASIS_POINT_MAX,
        protocol_fee_share <= BASIS_POINT_MAX,
    ensures
        match spec_step_up(fee_rate as int, protocol_fee_share as int, bin, price as int, remaining as int) {
            Ok(t) => r == Ok::<(Bin, u128, u128, u128), DloomError>(
                (t.0, t.1 as u128, t.2 as u128, t.3 as u128),
            ) && 0 <= t.1 <= u128::MAX && 0 <= t.2 <= u128::MAX && 0 <= t.3 <= remaining,
            Err(e) => r == Err::<(Bin, u128, u128, u128), DloomError>(e),
        },
{
    let available_a = bin.liquidity;
    if available_a == 0 {
        return Ok((bin, 0, 0, remaining));
    }

    let total_fee = match remaining.checked_mul(fee_rate as u128) {
        Some(v) => v / BASIS_POINT_MAX,
        None => {
            return Err(DloomError::MathOverflow);
        },
    };
    proof {
        lemma_rate_cut_le(remaining as int, fee_rate as int, BASIS_POINT_MAX as int);
    }
    let protocol_fee = match total_fee.checked_mul(protocol_fee_share as u128) {
        Some(v) => v / BASIS_POINT_MAX,
        None => {
            return Err(DloomError::MathOverflow);
        },
    };
    proof {
        lemma_rate_cut_le(total_fee as int, protocol_fee_share as int, BASIS_POINT_MAX as int);
    }
    let lp_fee = total_fee - protocol_fee;
    let net = remaining - total_fee;

    let net_scaled = match net.checked_mul(PRECISION) {
        Some(v) => v,
        None => {
            return Err(DloomError::MathOverflow);
        },
    };
    if price == 0 {
        return Err(DloomError::MathOverflow);
    }
    proof {
        lemma_div_pos_is_pos(net_scaled as int, price as int);
    }
    let out_raw = net_scaled / price;
    let out = if out_raw < available_a {
        out_raw
    } else {
        available_a
    };

    let out_priced = match out.checked_mul(price) {
        Some(v) => v,
        None => {
            return Err(DloomError::MathOverflow);
        },
    };
    proof {
        lemma_div_pos_is_pos(out_priced as int, PRECISION as int);
        lemma_div_nonincreasing(out_priced as int, PRECISION as int);
    }
    let consumed = out_priced / PRECISION;

    let consumed_scaled = match consumed.checked_mul(BASIS_POINT_MAX) {
        Some(v) => v,
        None => {
            return Err(DloomError::MathOverflow);
        },
    };
    if fee_rate as u128 == BASIS_POINT_MAX {
        return Err(DloomError::MathOverflow);
    }
    proof {
        lemma_div_pos_is_pos(
            consumed_scaled as int,
            BASIS_POINT_MAX as int - fee_rate as int,
        );
    }
    let actual_in = consumed_scaled / (BASIS_POINT_MAX - fee_rate as u128);

    let growth_scaled = match lp_fee.checked_mul(PRECISION) {
        Some(v) => v,
        None => {
            return Err(DloomError::MathOverflow);
        },
    };
    proof {
        lemma_div_pos_is_pos(growth_scaled as int, bin.liquidity as int);
    }
    let growth_update = growth_scaled / bin.liquidity;
    let new_growth_a = match bin.fee_growth_per_unit_a.checked_add(growth_update) {
        Some(v) => v,
        None => {
            return Err(DloomError::MathOverflow);
        },
    };
    let new_liquidity = bin.liquidity - out;
    let new_remaining = match remaining.checked_sub(actual_in) {
        Some(v) => v,
        None => {
            return Err(DloomError::MathOverflow);
        },
    };
    Ok(
        (
            Bin { liquidity: new_liquidity, fee_growth_per_unit_a: new_growth_a, ..bin },
            out,
            protocol_fee,
            new_remaining,
        ),
    )
}

/// Routes a swap of token A into token B down the committed bin set,
/// starting at the active bin. Returns the total output, the total
/// protocol fee and the bin id the walk stopped at; the committed bins are
/// rewritten only on success.
pub fn swap_a_to_b(pool: &DlmmPool, amount_in: u64, bins: &mut Vec<Bin>) -> (r: Result<
    (u64, u64, i32),
    DloomError,
>)
    requires
        pool.wf(),
    ensures
        match spec_route(
            *pool,
            old(bins)@,
            0,
            pool.active_bin_id as int,
            amount_in as int,
            0,
            0,
            true,
        ) {
            Ok(t) => r matches Ok(o) && final(bins)@ == t.0 && o.0 == t.1
                % 0x1_0000_0000_0000_0000 && o.1 == t.2 % 0x1_0000_0000_0000_0000 && o.2 == t.3,
            Err(e) => r == Err::<(u64, u64, i32), DloomError>(e) && final(bins)@ == old(bins)@,
        },
{
    route_swap(pool, amount_in, bins, true)
}

/// Routes a swap of token B into token A up the committed bin set,
/// starting at the active bin.
pub fn swap_b_to_a(pool: &DlmmPool, amount_in: u64, bins: &mut Vec<Bin>) -> (r: Result<
    (u64, u64, i32),
    DloomError,
>)
    requires
        pool.wf(),
    ensures
        match spec_route(
            *pool,
            old(bins)@,
            0,
            pool.active_bin_id as int,
            amount_in as int,
            0,
            0,
            false,
        ) {
            Ok(t) => r matches Ok(o) && final(bins)@ == t.0 && o.0 == t.1
                % 0x1_0000_0000_0000_0000 && o.1 == t.2 % 0x1_0000_0000_0000_0000 && o.2 == t.3,
            Err(e) => r == Err::<(u64, u64, i32), DloomError>(e) && final(bins)@ == old(bins)@,
        },
{
    route_swap(pool, amount_in, bins, false)
}

/// Shared walk of both router directions.
fn route_swap(pool: &DlmmPool, amount_in: u64, bins: &mut Vec<Bin>, a_to_b: bool) -> (r: Result<
    (u64, u64, i32),
    DloomError,
>)
    requires
        pool.wf(),
    ensures
        match spec_route(
            *pool,
            old(bins)@,
            0,
            pool.active_bin_id as int,
            amount_in as int,
            0,
            0,
            a_to_b,
        ) {
            Ok(t) => r matches Ok(o) && final(bins)@ == t.0 && o.0 == t.1
                % 0x1_0000_0000_0000_0000 && o.1 == t.2 % 0x1_0000_0000_0000_0000 && o.2 == t.3,
            Err(e) => r == Err::<(u64, u64, i32), DloomError>(e) && final(bins)@ == old(bins)@,
        },
{
    let ghost orig: Seq<Bin> = bins@;
    let mut staged: Vec<Bin> = Vec::new();
    let mut remaining: u128 = amount_in as u128;
    let mut total_out: u128 = 0;
    let mut total_pfee: u128 = 0;
    let mut cur_id: i32 = pool.active_bin_id;
    let n = bins.len();
    let mut k: usize = 0;
    proof {
        assert(staged@ + orig.skip(0) =~= orig);
    }

    while k < n
        invariant
            pool.wf(),
            bins@ == orig,
            n == orig.len(),
            staged@.len() == k,
            k <= n,
            spec_route(*pool, orig, 0, pool.active_bin_id as int, amount_in as int, 0, 0, a_to_b)
                == spec_route(
                *pool,
                staged@ + orig.skip(k as int),
                k as int,
                cur_id as int,
                remaining as int,
                total_out as int,
                total_pfee as int,
                a_to_b,
            ),
        decreases n - k,
    {
        let ghost combined = staged@ + orig.skip(k as int);
        proof {
            assert(combined[k as int] == orig[k as int]);
        }
        if remaining > 0 {
            let price = match get_price_at_bin(cur_id, pool.bin_step) {
                Ok(p) => p,
                Err(e) => {
                    return Err(e);
                },
            };
            let current_bin: Bin = bins[k];
            let stepped = if a_to_b {
                swap_step_down(pool.fee_rate, pool.protocol_fee_share, current_bin, price, remaining)
            } else {
                swap_step_up(pool.fee_rate, pool.protocol_fee_share, current_bin, price, remaining)
            };
            let (new_bin, out_chunk, pfee_chunk, new_remaining) = match stepped {
                Ok(t) => t,
                Err(e) => {
                    return Err(e);
                },
            };
            total_pfee = match total_pfee.checked_add(pfee_chunk) {
                Some(v) => v,
                None => {
                    return Err(DloomError::MathOverflow);
                },
            };
            total_out = match total_out.checked_add(out_chunk) {
                Some(v) => v,
                None => {
                    return Err(DloomError::MathOverflow);
                },
            };
            cur_id = if a_to_b {
                match cur_id.checked_sub(1) {
                    Some(v) => v,
                    None => {
                        return Err(DloomError::MathOverflow);
                    },
                }
            } else {
                match cur_id.checked_add(1) {
                    Some(v) => v,
                    None => {
                        return Err(DloomError::MathOverflow);
                    },
                }
            };
            remaining = new_remaining;
            staged.push(new_bin);
            proof {
                assert(staged@ + orig.skip(k as int + 1) =~= combined.update(k as int, new_bin));
            }
        } else {
            let untouched: Bin = bins[k];
            staged.push(untouched);
            proof {
                assert(staged@ + orig.skip(k as int + 1) =~= combined);
            }
        }
        k = k + 1;
    }

    if remaining > 0 {
        return Err(DloomError::InsufficientLiquidityForSwap);
    }

    proof {
        assert(staged@ + orig.skip(n as int) =~= staged@);
        lemma_u128_truncate_u64(total_out);
        lemma_u128_truncate_u64(total_pfee);
    }
    *bins = staged;
    let out_u64 = #[verifier::truncate] (total_out as u64);
    let pfee_u64 = #[verifier::truncate] (total_pfee as u64);
    Ok((out_u64, pfee_u64, cur_id))
}

/// Bin ids the walk crossed: the distance from the starting active bin to
/// where the router stopped.
pub open spec fn spec_bins_crossed(active: int, end: int) -> int {
    if active < end {
        end - active
    } else {
        active - end
    }
}

/// Swaps against the discretized pool in the given direction.
///
/// Routes the input through the committed bin set, holds the output to the
/// caller's slippage bound, moves the active bin to where the walk
/// stopped, feeds the crossed-bin count into the volatility accumulator,
/// and settles the reserves: everything but the protocol's cut stays in
/// the pool. Returns the output and the protocol fee. On any failure the
/// pool and the committed bins are left untouched.
pub fn dlmm_swap(
    pool: &mut DlmmPool,
    bins: &mut Vec<Bin>,
    amount_in: u64,
    min_amount_out: u64,
    a_to_b: bool,
) -> (r: Result<(u64, u64), DloomError>)
    requires
        old(pool).wf(),
    ensures
        final(pool).wf(),
        r is Err ==> *final(pool) == *old(pool) && final(bins)@ == old(bins)@,
        match spec_route(
            *old(pool),
            old(bins)@,
            0,
            old(pool).active_bin_id as int,
            amount_in as int,
            0,
            0,
            a_to_b,
        ) {
            Err(e) => r == Err::<(u64, u64), DloomError>(e),
            Ok(t) => {
                let out = t.1 % 0x1_0000_0000_0000_0000;
                let pfee = t.2 % 0x1_0000_0000_0000_0000;
                let crossed = spec_bins_crossed(old(pool).active_bin_id as int, t.3);
                if out < min_amount_out {
                    r == Err::<(u64, u64), DloomError>(DloomError::SlippageExceeded)
                } else if old(pool).volatility_accumulator + crossed > u64::MAX || pfee > amount_in {
                    r == Err::<(u64, u64), DloomError>(DloomError::MathOverflow)
                } else {
                    let src_after = (if a_to_b {
                        old(pool).reserves_a as int
                    } else {
                        old(pool).reserves_b as int
                    }) + amount_in - pfee;
                    let dst_before = if a_to_b {
                        old(pool).reserves_b as int
                    } else {
                        old(pool).reserves_a as int
                    };
                    if src_after > u64::MAX || dst_before < out {
                        r == Err::<(u64, u64), DloomError>(DloomError::MathOverflow)
                    } else {
                        r == Ok::<(u64, u64), DloomError>((out as u64, pfee as u64))
                            && final(bins)@ == t.0 && *final(pool) == (DlmmPool {
                            active_bin_id: t.3 as i32,
                            volatility_accumulator: (old(pool).volatility_accumulator
                                + crossed) as u64,
                            reserves_a: (if a_to_b {
                                src_after
                            } else {
                                dst_before - out
                            }) as u64,
                            reserves_b: (if a_to_b {
                                dst_before - out
                            } else {
                                src_after
                            }) as u64,
                            ..*old(pool)
                        })
                    }
                }
            },
        },
{
    let mut staged_bins: Vec<Bin> = Vec::new();
    let mut i: usize = 0;
    while i < bins.len()
        invariant
            i <= bins@.len(),
            staged_bins@ == bins@.take(i as int),
        decreases bins@.len() - i,
    {
        let b: Bin = bins[i];
        staged_bins.push(b);
        proof {
            assert(bins@.take(i as int + 1) =~= bins@.take(i as int).push(b));
        }
        i = i + 1;
    }
    proof {
        assert(bins@.take(bins@.len() as int) =~= bins@);
    }

    let (total_out, total_pfee, end_bin_id) = match route_swap(pool, amount_in, &mut staged_bins, a_to_b) {
        Ok(t) => t,
        Err(e) => {
            return Err(e);
        },
    };
    if !(total_out >= min_amount_out) {
        return Err(DloomError::SlippageExceeded);
    }

    let crossed: u64 = if pool.active_bin_id < end_bin_id {
        (end_bin_id as i64 - pool.active_bin_id as i64) as u64
    } else {
        (pool.active_bin_id as i64 - end_bin_id as i64) as u64
    };
    let new_volatility = match pool.volatility_accumulator.checked_add(crossed) {
        Some(v) => v,
        None => {
            return Err(DloomError::MathOverflow);
        },
    };
    let net_into_pool = match amount_in.checked_sub(total_pfee) {
        Some(v) => v,
        None => {
            return Err(DloomError::MathOverflow);
        },
    };

    let (src_reserve, dst_reserve) = if a_to_b {
        (pool.reserves_a, pool.reserves_b)
    } else {
        (pool.reserves_b, pool.reserves_a)
    };
    let new_src = match src_reserve.checked_add(net_into_pool) {
        Some(v) => v,
        None => {
            return Err(DloomError::MathOverflow);
        },
    };
    let new_dst = match dst_reserve.checked_sub(total_out) {
        Some(v) => v,
        None => {
            return Err(DloomError::MathOverflow);
        },
    };

    pool.active_bin_id = end_bin_id;
    pool.volatility_accumulator = new_volatility;
    if a_to_b {
        pool.reserves_a = new_src;
        pool.reserves_b = new_dst;
    } else {
        pool.reserves_b = new_src;
        pool.reserves_a = new_dst;
    }
    *bins = staged_bins;
    Ok((total_out, total_pfee))
}

} // verus!
