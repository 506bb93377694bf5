//! Fixed-point arithmetic: an `i64` or `i128` holds the real number it
//! stands for multiplied by `SCALE`. Division always rounds toward negative
//! infinity (floor), which is what the mathematical `/` on `int` computes
//! for a positive divisor.

use vstd::prelude::*;

verus! {

/// One whole unit in fixed-point representation (2^20).
pub const SCALE: i64 = 0x10_0000;

/// Fixed-point product: multiply, then scale back down with a flooring
/// division.
pub open spec fn fmul(a: int, b: int) -> int {
    (a * b) / (SCALE as int)
}

/// Quotient of `a` and a positive divisor `b`, scaled up so the result
/// keeps fixed-point precision.
pub open spec fn fdiv(a: int, b: int) -> int {
    (a * (SCALE as int)) / b
}

/// Floor division of `a` by a positive divisor `b`. The mathematical `/`
/// on `int` is Euclidean division, which for a positive divisor rounds
/// toward negative infinity; `i128::div_euclid` computes the same thing.
pub(crate) fn floor_div(a: i128, b: i128) -> (r: i128)
    requires
        1 <= b,
    ensures
        r == a as int / b as int,
{
    proof {
        lemma_div_quotient_in_range(a as int, b as int);
    }
    let q = a.checked_div_euclid(b);
    q.unwrap()
}

/// Product of two `i128` values that are small enough not to overflow,
/// scaled back down: the executable form of [`fmul`].
pub(crate) fn mul_scaled(a: i128, b: i128) -> (r: i128)
    requires
        -0x4000_0000_0000_0000 <= a <= 0x4000_0000_0000_0000,
        -0x4000_0000_0000_0000 <= b <= 0x4000_0000_0000_0000,
    ensures
        r == fmul(a as int, b as int),
{
    proof {
        lemma_mul_bound(a as int, b as int, 0x4000_0000_0000_0000, 0x4000_0000_0000_0000);
    }
    floor_div(a * b, SCALE as i128)
}

/// The quotient of a floor division by a positive divisor never grows in
/// magnitude, so it stays inside the numerator's range.
pub proof fn lemma_div_quotient_in_range(a: int, b: int)
    requires
        1 <= b,
    ensures
        a <= 0 ==> a <= a / b <= 0,
        a >= 0 ==> 0 <= a / b <= a,
{
    vstd::arithmetic::div_mod::lemma_fundamental_div_mod(a, b);
    let q = a / b;
    let r = a % b;
    if a >= 0 {
        assert(0 <= q <= a) by (nonlinear_arith)
            requires
                a == b * q + r,
                0 <= r < b,
                1 <= b,
                a >= 0;
    } else {
        assert(a <= q <= 0) by (nonlinear_arith)
            requires
                a == b * q + r,
                0 <= r < b,
                1 <= b,
                a < 0;
    }
}

/// A product of values bounded in magnitude is bounded by the product of
/// the bounds.
pub proof fn lemma_mul_bound(a: int, b: int, bound_a: int, bound_b: int)
    requires
        -bound_a <= a <= bound_a,
        -bound_b <= b <= bound_b,
        0 <= bound_a,
        0 <= bound_b,
    ensures
        -(bound_a * bound_b) <= a * b <= bound_a * bound_b,
{
    assert(-(bound_a * bound_b) <= a * b <= bound_a * bound_b) by (nonlinear_arith)
        requires
            -bound_a <= a <= bound_a,
            -bound_b <= b <= bound_b,
            0 <= bound_a,
            0 <= bound_b;
}

/// Floor division by a positive divisor of a value bounded in magnitude:
/// the quotient is bounded by the divided bound, give or take the one unit
/// that flooring a negative value can lose.
pub proof fn lemma_floor_div_bound(x: int, m: int, b: int)
    requires
        -m <= x <= m,
        0 <= m,
        1 <= b,
    ensures
        -(m / b) - 1 <= x / b <= m / b,
{
    vstd::arithmetic::div_mod::lemma_div_is_ordered(x, m, b);
    vstd::arithmetic::div_mod::lemma_div_is_ordered(-m, x, b);
    vstd::arithmetic::div_mod::lemma_fundamental_div_mod(m, b);
    let q = m / b;
    let r = m % b;
    if r == 0 {
        assert(-m == (-q) * b + 0) by (nonlinear_arith)
            requires
                m == b * q + r,
                r == 0;
        vstd::arithmetic::div_mod::lemma_fundamental_div_mod_converse(-m, b, -q, 0);
    } else {
        assert(-m == (-q - 1) * b + (b - r)) by (nonlinear_arith)
            requires
                m == b * q + r;
        vstd::arithmetic::div_mod::lemma_fundamental_div_mod_converse(-m, b, -q - 1, b - r);
    }
}

/// The magnitude form of [`lemma_mul_bound`] and [`lemma_floor_div_bound`]
/// put together, for the fixed-point product.
pub proof fn lemma_fmul_bound(a: int, b: int, bound_a: int, bound_b: int)
    requires
        -bound_a <= a <= bound_a,
        -bound_b <= b <= bound_b,
        0 <= bound_a,
        0 <= bound_b,
    ensures
        -(bound_a * bound_b / (SCALE as int)) - 1 <= fmul(a, b) <= bound_a * bound_b / (
        SCALE as int),
{
    lemma_mul_bound(a, b, bound_a, bound_b);
    lemma_floor_div_bound(a * b, bound_a * bound_b, SCALE as int);
}

} // verus!
