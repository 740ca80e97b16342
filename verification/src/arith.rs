//! Exact scaling of 64-bit quantities: `a * b / d` without intermediate
//! overflow, rounded down or up, and saturated to 64 bits.

use vstd::arithmetic::div_mod::{lemma_div_is_ordered, lemma_fundamental_div_mod};
use vstd::arithmetic::mul::lemma_mul_inequality;
use vstd::prelude::*;

verus! {

/// Nanoseconds in one second.
pub const NANOS_PER_SECOND: u64 = 1_000_000_000;

/// `a * b / d`, rounded down.
pub open spec fn scale_floor(a: nat, b: nat, d: nat) -> nat
    recommends
        d > 0,
{
    (a * b) / d
}

/// `a * b / d`, rounded up.
pub open spec fn scale_ceil(a: nat, b: nat, d: nat) -> nat
    recommends
        d > 0,
{
    if (a * b) % d == 0 {
        (a * b) / d
    } else {
        (a * b) / d + 1
    }
}

/// The 64-bit value nearest to `x` from below: `x` itself where it fits,
/// the largest 64-bit value otherwise.
pub open spec fn saturate(x: nat) -> u64 {
    if x > u64::MAX {
        u64::MAX
    } else {
        x as u64
    }
}

/// The product of two 64-bit values fits in 128 bits.
pub proof fn lemma_product_fits(a: u64, b: u64)
    ensures
        a * b <= u128::MAX,
{
    assert(a * b <= 0xffff_ffff_ffff_ffff * 0xffff_ffff_ffff_ffff) by (nonlinear_arith)
        requires
            0 <= a <= 0xffff_ffff_ffff_ffff,
            0 <= b <= 0xffff_ffff_ffff_ffff,
    ;
}

/// Scaling down is monotonic in the scaled quantity.
pub proof fn lemma_scale_floor_monotonic(a1: nat, a2: nat, b: nat, d: nat)
    requires
        a1 <= a2,
        d > 0,
    ensures
        scale_floor(a1, b, d) <= scale_floor(a2, b, d),
{
    lemma_mul_inequality(a1 as int, a2 as int, b as int);
    lemma_div_is_ordered((a1 * b) as int, (a2 * b) as int, d as int);
}

/// Rounding down loses less than one unit: `a * b` lies in
/// `[q * d, q * d + d)` for `q = scale_floor(a, b, d)`.
pub proof fn lemma_scale_floor_bounds(a: nat, b: nat, d: nat)
    requires
        d > 0,
    ensures
        scale_floor(a, b, d) * d <= a * b < scale_floor(a, b, d) * d + d,
{
    let x = (a * b) as int;
    lemma_fundamental_div_mod(x, d as int);
    assert(d * (x / (d as int)) == (x / (d as int)) * d) by (nonlinear_arith);
}

/// Scaling a sum down gives the sum of the scaled parts, or one more.
pub proof fn lemma_scale_floor_additive(a1: nat, a2: nat, b: nat, d: nat)
    requires
        d > 0,
    ensures
        scale_floor(a1, b, d) + scale_floor(a2, b, d) <= scale_floor(a1 + a2, b, d),
        scale_floor(a1 + a2, b, d) <= scale_floor(a1, b, d) + scale_floor(a2, b, d) + 1,
{
    let q1 = scale_floor(a1, b, d);
    let q2 = scale_floor(a2, b, d);
    let q = scale_floor(a1 + a2, b, d);
    lemma_scale_floor_bounds(a1, b, d);
    lemma_scale_floor_bounds(a2, b, d);
    lemma_scale_floor_bounds(a1 + a2, b, d);
    assert((a1 + a2) * b == a1 * b + a2 * b) by (nonlinear_arith);
    assert(q1 + q2 <= q && q <= q1 + q2 + 1) by (nonlinear_arith)
        requires
            d > 0,
            q1 * d <= a1 * b < q1 * d + d,
            q2 * d <= a2 * b < q2 * d + d,
            q * d <= a1 * b + a2 * b < q * d + d,
    ;
}

/// Computes `a * b / d` rounded down, saturated to 64 bits.
pub fn mul_div_floor(a: u64, b: u64, d: u64) -> (r: u64)
    requires
        d > 0,
    ensures
        r == saturate(scale_floor(a as nat, b as nat, d as nat)),
{
    proof {
        lemma_product_fits(a, b);
    }
    let product: u128 = (a as u128) * (b as u128);
    let quotient: u128 = product / (d as u128);
    if quotient > u64::MAX as u128 {
        u64::MAX
    } else {
        quotient as u64
    }
}

/// Computes `a * b / d` rounded up, saturated to 64 bits.
pub fn mul_div_ceil(a: u64, b: u64, d: u64) -> (r: u64)
    requires
        d > 0,
    ensures
        r == saturate(scale_ceil(a as nat, b as nat, d as nat)),
{
    proof {
        lemma_product_fits(a, b);
    }
    let product: u128 = (a as u128) * (b as u128);
    let quotient: u128 = product / (d as u128);
    let remainder: u128 = product % (d as u128);
    if quotient >= u64::MAX as u128 {
        u64::MAX
    } else if remainder == 0 {
        quotient as u64
    } else {
        (quotient + 1) as u64
    }
}

} // verus!
