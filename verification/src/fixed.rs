//! Fixed-point arithmetic on the complex plane.
//!
//! Coordinates are stored as `i64` multiples of `1 / SCALE`, so the plane is
//! modelled with exact integer arithmetic throughout the library.

use vstd::prelude::*;
use vstd::arithmetic::div_mod::{
    lemma_div_is_ordered, lemma_div_multiples_vanish, lemma_div_nonincreasing,
    lemma_div_pos_is_pos,
};

verus! {

/// Fixed-point scale: a stored coordinate `x` stands for the real number
/// `x / SCALE`.
pub const SCALE: i64 = 100_000_000;

/// Truncating (round-toward-zero) division on mathematical integers, for a
/// positive divisor.  This is the behaviour of `/` on Rust's signed integer
/// types, while `/` on `int` in specifications is Euclidean division; the two
/// differ on negative dividends.
pub open spec fn trunc_div(a: int, d: int) -> int {
    if a >= 0 {
        a / d
    } else {
        -((-a) / d)
    }
}

/// Truncating division by a positive divisor never grows the magnitude and
/// never changes the sign.
pub proof fn lemma_trunc_div_bounds(a: int, d: int)
    requires
        d >= 1,
    ensures
        a >= 0 ==> 0 <= trunc_div(a, d) <= a,
        a < 0 ==> a <= trunc_div(a, d) <= 0,
{
    if a >= 0 {
        lemma_div_pos_is_pos(a, d);
        lemma_div_nonincreasing(a, d);
    } else {
        lemma_div_pos_is_pos(-a, d);
        lemma_div_nonincreasing(-a, d);
    }
}

/// Truncating division is monotone on non-negative dividends.
pub proof fn lemma_trunc_div_ordered(a: int, b: int, d: int)
    requires
        d >= 1,
        0 <= a <= b,
    ensures
        trunc_div(a, d) <= trunc_div(b, d),
{
    lemma_div_is_ordered(a, b, d);
}

/// Dividing an exact multiple of the divisor recovers the factor.
pub proof fn lemma_trunc_div_multiple(m: int, d: int)
    requires
        d >= 1,
        m >= 0,
    ensures
        trunc_div(m * d, d) == m,
{
    lemma_div_multiples_vanish(m, d);
    assert(m * d == d * m) by (nonlinear_arith);
}

/// A truncating quotient lies between any bounds whose products with the
/// divisor enclose the dividend.
pub proof fn lemma_trunc_div_bounded(a: int, d: int, lo: int, hi: int)
    requires
        d >= 1,
        lo <= 0 <= hi,
        d * lo <= a <= d * hi,
    ensures
        lo <= trunc_div(a, d) <= hi,
{
    if a >= 0 {
        lemma_div_pos_is_pos(a, d);
        lemma_div_is_ordered(a, d * hi, d);
        lemma_div_multiples_vanish(hi, d);
    } else {
        assert(d * (-lo) == -(d * lo)) by (nonlinear_arith);
        lemma_div_pos_is_pos(-a, d);
        lemma_div_is_ordered(-a, d * (-lo), d);
        lemma_div_multiples_vanish(-lo, d);
    }
}

} // verus!
