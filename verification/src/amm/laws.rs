//! General laws of the constant-product engine, stated and proved over the
//! same spec functions its contracts use.

use vstd::prelude::*;
use vstd::arithmetic::div_mod::{
    lemma_div_is_ordered, lemma_div_of0, lemma_div_pos_is_pos, lemma_hoist_over_denominator,
};
use vstd::arithmetic::mul::lemma_mul_inequality;

use crate::arith::{lemma_div_mul_le, lemma_frac_le, lemma_rate_cut_le};
use crate::constants::BASIS_POINT_MAX;
use crate::amm::math::{
    is_sqrt, spec_net_in, spec_protocol_fee, spec_swap_out, spec_total_fee, spec_withdraw_amount,
};
use crate::amm::ops::{
    spec_dst, spec_oracle_after, spec_oracle_ok, spec_src, spec_swap_ok, spec_swap_pool_after,
};
use crate::amm::state::AmmPool;

verus! {

/// The net traded input never shrinks when the gross input grows: the fee
/// can eat at most the whole increment.
proof fn lemma_net_in_monotone(a1: int, a2: int, fee_rate: int)
    requires
        0 <= a1 <= a2,
        0 <= fee_rate <= BASIS_POINT_MAX,
    ensures
        0 <= spec_net_in(a1, fee_rate) <= spec_net_in(a2, fee_rate),
{
    let d = BASIS_POINT_MAX as int;
    lemma_rate_cut_le(a1, fee_rate, d);
    lemma_rate_cut_le(a2, fee_rate, d);
    // fee(a2) <= fee(a1) + (a2 - a1), because the extra input is taxed at
    // no more than the whole.
    assert(a2 * fee_rate <= a1 * fee_rate + (a2 - a1) * d) by (nonlinear_arith)
        requires
            0 <= a1 <= a2,
            0 <= fee_rate <= d;
    lemma_div_is_ordered(a2 * fee_rate, a1 * fee_rate + (a2 - a1) * d, d);
    lemma_hoist_over_denominator(a1 * fee_rate, a2 - a1, d as nat);
}

/// Output of the constant-product formula is monotone in the net input.
proof fn lemma_out_monotone_in_net(n1: int, n2: int, src: int, dst: int)
    requires
        0 <= n1 <= n2,
        0 < src,
        0 <= dst,
    ensures
        dst * n1 / (src + n1) <= dst * n2 / (src + n2),
{
    assert((dst * n1) * (src + n2) <= (dst * n2) * (src + n1)) by (nonlinear_arith)
        requires
            0 <= n1 <= n2,
            0 < src,
            0 <= dst;
    assert(0 <= dst * n1) by (nonlinear_arith)
        requires
            0 <= n1,
            0 <= dst;
    assert(0 <= dst * n2) by (nonlinear_arith)
        requires
            0 <= n2,
            0 <= dst;
    lemma_frac_le(dst * n1, src + n1, dst * n2, src + n2);
}

/// For all valid inputs the swap output is non-decreasing in the input
/// amount, all other parameters fixed.
pub proof fn lemma_swap_out_monotone_in_amount(a1: int, a2: int, fee_rate: int, src: int, dst: int)
    requires
        0 <= a1 <= a2,
        0 <= fee_rate <= BASIS_POINT_MAX,
        0 < src,
        0 <= dst,
    ensures
        spec_swap_out(a1, fee_rate, src, dst) <= spec_swap_out(a2, fee_rate, src, dst),
{
    lemma_net_in_monotone(a1, a2, fee_rate);
    lemma_out_monotone_in_net(spec_net_in(a1, fee_rate), spec_net_in(a2, fee_rate), src, dst);
}

/// For all valid inputs the swap output is non-increasing in the fee rate,
/// all other parameters fixed.
pub proof fn lemma_swap_out_antitone_in_fee(a: int, fee1: int, fee2: int, src: int, dst: int)
    requires
        0 <= a,
        0 <= fee1 <= fee2 <= BASIS_POINT_MAX,
        0 < src,
        0 <= dst,
    ensures
        spec_swap_out(a, fee2, src, dst) <= spec_swap_out(a, fee1, src, dst),
{
    let d = BASIS_POINT_MAX as int;
    assert(a * fee1 <= a * fee2) by (nonlinear_arith)
        requires
            0 <= a,
            fee1 <= fee2;
    lemma_div_is_ordered(a * fee1, a * fee2, d);
    lemma_rate_cut_le(a, fee1, d);
    lemma_rate_cut_le(a, fee2, d);
    lemma_out_monotone_in_net(spec_net_in(a, fee2), spec_net_in(a, fee1), src, dst);
}

/// With a zero fee rate the output is exactly
/// floor(dst * amount_in / (src + amount_in)).
pub proof fn lemma_swap_out_zero_fee(a: int, src: int, dst: int)
    requires
        0 <= a,
        0 < src,
    ensures
        spec_swap_out(a, 0, src, dst) == dst * a / (src + a),
{
    assert(a * 0 == 0) by (nonlinear_arith);
    lemma_div_of0(BASIS_POINT_MAX as int);
    assert(spec_net_in(a, 0) == a);
}

/// The product of the reserves never decreases across a swap, for any fee
/// rate: the pool keeps the rounding dust and the lp fee.
pub proof fn lemma_constant_product_non_decrease(
    amount_in: int,
    fee_rate: int,
    protocol_fee_share: int,
    src: int,
    dst: int,
)
    requires
        0 <= amount_in,
        0 <= fee_rate <= BASIS_POINT_MAX,
        0 <= protocol_fee_share <= BASIS_POINT_MAX,
        0 < src,
        0 <= dst,
    ensures
        (src + amount_in - spec_protocol_fee(amount_in, fee_rate, protocol_fee_share)) * (dst
            - spec_swap_out(amount_in, fee_rate, src, dst)) >= src * dst,
        0 <= spec_swap_out(amount_in, fee_rate, src, dst) <= dst,
        0 <= spec_protocol_fee(amount_in, fee_rate, protocol_fee_share) <= amount_in,
{
    let d = BASIS_POINT_MAX as int;
    let tf = spec_total_fee(amount_in, fee_rate);
    let pf = spec_protocol_fee(amount_in, fee_rate, protocol_fee_share);
    let net = spec_net_in(amount_in, fee_rate);
    let q = spec_swap_out(amount_in, fee_rate, src, dst);
    lemma_rate_cut_le(amount_in, fee_rate, d);
    lemma_rate_cut_le(tf, protocol_fee_share, d);
    assert(0 <= pf <= tf);
    assert(0 <= net);
    assert(0 <= dst * net) by (nonlinear_arith)
        requires
            0 <= dst,
            0 <= net;
    lemma_div_mul_le(dst * net, src + net);
    lemma_div_pos_is_pos(dst * net, src + net);
    // (src + net) * (dst - q) >= src * dst, since q * (src + net) <= dst * net.
    assert((src + net) * (dst - q) >= src * dst) by (nonlinear_arith)
        requires
            (dst * net / (src + net)) * (src + net) <= dst * net,
            q == dst * net / (src + net),
            0 < src + net,
            0 <= dst;
    // dst - q >= 0: q <= dst * net / (src + net) <= dst.
    assert(q * (src + net) <= dst * net);
    assert(q * (src + net) <= dst * (src + net)) by (nonlinear_arith)
        requires
            q * (src + net) <= dst * net,
            0 <= net,
            0 < src,
            0 <= dst;
    assert(q <= dst) by (nonlinear_arith)
        requires
            q * (src + net) <= dst * (src + net),
            0 < src + net;
    // The pool keeps amount_in - pf >= net, so the product only grows.
    lemma_mul_inequality(src + net, src + amount_in - pf, dst - q);
}

/// The reserve product of the pool record itself never decreases across a
/// successful swap, in either direction.
pub proof fn lemma_swap_pool_preserves_product(
    p: AmmPool,
    lp_supply: u64,
    amount_in: u64,
    min_amount_out: u64,
    a_to_b: bool,
    now: i64,
)
    requires
        p.wf(),
        spec_swap_ok(p, lp_supply, amount_in, min_amount_out, a_to_b, now),
    ensures
        ({
            let after = spec_swap_pool_after(p, lp_supply, amount_in, a_to_b, now);
            after.reserves_a * after.reserves_b >= p.reserves_a * p.reserves_b
        }),
{
    let src = spec_src(p, a_to_b);
    let dst = spec_dst(p, a_to_b);
    let pf = spec_protocol_fee(amount_in as int, p.fee_rate as int, p.protocol_fee_share as int);
    let out = spec_swap_out(amount_in as int, p.fee_rate as int, src, dst);
    lemma_constant_product_non_decrease(
        amount_in as int,
        p.fee_rate as int,
        p.protocol_fee_share as int,
        src,
        dst,
    );
    let after = spec_swap_pool_after(p, lp_supply, amount_in, a_to_b, now);
    assert((src + amount_in - pf) * (dst - out) == (dst - out) * (src + amount_in - pf))
        by (nonlinear_arith);
    if a_to_b {
        assert(after.reserves_a == src + amount_in - pf && after.reserves_b == dst - out);
    } else {
        assert(after.reserves_b == src + amount_in - pf && after.reserves_a == dst - out);
    }
}

/// Depositing (a, b) into an empty pool and at once withdrawing every
/// minted lp unit returns exactly the deposited amounts: the round trip
/// loses no more than rounding dust, and here none at all.
pub proof fn lemma_first_deposit_round_trip(a: u64, b: u64, minted: int)
    requires
        is_sqrt(minted, a as int * b as int),
        minted > 0,
    ensures
        spec_withdraw_amount(a as int, minted, minted) == a,
        spec_withdraw_amount(b as int, minted, minted) == b,
        spec_withdraw_amount(a as int, minted, minted) <= a,
        spec_withdraw_amount(b as int, minted, minted) <= b,
{
    assert(a as int * minted == minted * a as int) by (nonlinear_arith);
    assert(b as int * minted == minted * b as int) by (nonlinear_arith);
    vstd::arithmetic::div_mod::lemma_div_multiples_vanish(a as int, minted);
    vstd::arithmetic::div_mod::lemma_div_multiples_vanish(b as int, minted);
}

/// Two oracle updates at the same timestamp leave both cumulative values,
/// and the whole pool record, unchanged after the first: the second update
/// integrates over an empty interval.
pub proof fn lemma_oracle_idempotent(p: AmmPool, now: i64)
    ensures
        spec_oracle_after(spec_oracle_after(p, now), now) == spec_oracle_after(p, now),
        spec_oracle_ok(spec_oracle_after(p, now), now),
{
    let p1 = spec_oracle_after(p, now);
    assert(p1.last_update_timestamp == now);
    assert(spec_oracle_after(p1, now).price_a_cumulative == p1.price_a_cumulative);
    assert(spec_oracle_after(p1, now).price_b_cumulative == p1.price_b_cumulative);
}

} // verus!
