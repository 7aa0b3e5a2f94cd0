//! Shared arithmetic lemmas for the fixed-point fee and pricing proofs.
//!
//! Everything in the engine is floor-truncating integer arithmetic; these
//! lemmas package the handful of division facts the contracts lean on.

use vstd::prelude::*;
use vstd::arithmetic::div_mod::{
    lemma_div_is_ordered, lemma_div_multiples_vanish, lemma_div_pos_is_pos,
    lemma_fundamental_div_mod, lemma_small_mod,
};
use vstd::arithmetic::mul::lemma_mul_upper_bound;

verus! {

/// The quotient floor(a*f/d) never exceeds a when the rate f is at most the
/// denominator d: scaling by a basis-point fraction cannot grow an amount.
pub proof fn lemma_rate_cut_le(a: int, f: int, d: int)
    requires
        0 <= a,
        0 <= f <= d,
        0 < d,
    ensures
        0 <= a * f / d <= a,
{
    assert(0 <= a * f <= a * d && a * d == d * a) by (nonlinear_arith)
        requires 0 <= a, 0 <= f <= d;
    lemma_div_is_ordered(a * f, a * d, d);
    lemma_div_multiples_vanish(a, d);
    lemma_div_pos_is_pos(a * f, d);
}

/// Floor division is monotone across different denominators: if the
/// cross-products are ordered, so are the quotients.
pub proof fn lemma_frac_le(a1: int, b1: int, a2: int, b2: int)
    requires
        0 <= a1,
        0 <= a2,
        0 < b1,
        0 < b2,
        a1 * b2 <= a2 * b1,
    ensures
        a1 / b1 <= a2 / b2,
{
    let q = a1 / b1;
    lemma_fundamental_div_mod(a1, b1);
    lemma_div_pos_is_pos(a1, b1);
    assert(q * b2 <= a2) by (nonlinear_arith)
        requires
            a1 == b1 * q + a1 % b1,
            0 <= a1 % b1,
            0 <= q,
            a1 * b2 <= a2 * b1,
            0 < b1,
            0 < b2;
    lemma_fundamental_div_mod(a2, b2);
    assert(q <= a2 / b2) by (nonlinear_arith)
        requires
            q * b2 <= a2,
            a2 == b2 * (a2 / b2) + a2 % b2,
            0 <= a2 % b2,
            0 < b2;
}

/// An upper bound on a floor quotient: if the dividend stays at or below
/// c times the divisor, the quotient stays at or below c.
pub proof fn lemma_div_le_bound(a: int, b: int, c: int)
    requires
        0 <= a,
        0 < b,
        0 <= c,
        a <= c * b,
    ensures
        a / b <= c,
{
    lemma_fundamental_div_mod(a, b);
    lemma_div_pos_is_pos(a, b);
    assert(a / b <= c) by (nonlinear_arith)
        requires
            a == b * (a / b) + a % b,
            0 <= a % b,
            0 <= a / b,
            a <= c * b,
            0 < b;
}

/// The floor quotient times the divisor stays at or below the dividend.
pub proof fn lemma_div_mul_le(x: int, d: int)
    requires
        0 <= x,
        0 < d,
    ensures
        (x / d) * d <= x,
        0 <= x / d,
{
    lemma_fundamental_div_mod(x, d);
    lemma_div_pos_is_pos(x, d);
    assert((x / d) * d == d * (x / d)) by (nonlinear_arith);
}

/// Bounded factors give a bounded product.
pub proof fn lemma_mul_le(x: int, xbound: int, y: int, ybound: int)
    requires
        0 <= x <= xbound,
        0 <= y <= ybound,
    ensures
        0 <= x * y <= xbound * ybound,
{
    lemma_mul_upper_bound(x, xbound, y, ybound);
    assert(0 <= x * y) by (nonlinear_arith)
        requires 0 <= x, 0 <= y;
}

/// Exec truncation of a u128 into a u64 is reduction modulo 2^64.
pub proof fn lemma_u128_truncate_u64(x: u128)
    ensures
        (x as u64) == x as int % 0x1_0000_0000_0000_0000,
{
    assert((x as u64) as int == x as int % 0x1_0000_0000_0000_0000) by (bit_vector);
}

/// Truncation is the identity on values that already fit.
pub proof fn lemma_u128_fits_u64(x: u128)
    requires
        x <= u64::MAX,
    ensures
        (x as u64) == x as int,
{
    lemma_u128_truncate_u64(x);
    lemma_small_mod(x as nat, 0x1_0000_0000_0000_0000);
}

} // verus!
