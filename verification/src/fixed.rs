//! Fixed-point arithmetic: every quantity is an integer count of millionths.
//!
//! Angles are held in millionths of a degree, lengths in millionths of a
//! millimetre, and input samples and sensitivities in millionths of one.
//! Sines, cosines and pi, which are never whole, are held a million times
//! finer, in millionths of a millionth, so that what they lose by rounding
//! stays far below one count of any length computed from them.
//!
//! Both ways of rounding treat a quantity and its negative alike, so that
//! negating an input negates the result.

use vstd::prelude::*;

verus! {

/// One whole unit: the quantity `q` stands for the real number `q / SCALE`.
pub const SCALE: i64 = 1_000_000;

/// One, for a sine, a cosine or pi: such a factor `f` stands for the real
/// number `f / FINE`.
pub const FINE: i64 = 1_000_000_000_000;

/// Largest magnitude accepted for a configured or commanded quantity:
/// a million whole units.
pub const LIMIT: i64 = 1_000_000_000_000;

/// Largest magnitude accepted for an angle: a thousand degrees. Products
/// of a radius, an angle, a sine and pi at their full precision then fit in
/// 128 bits.
pub const ANGLE_LIMIT: i64 = 1_000_000_000;

/// Largest magnitude accepted for a coordinate that is to be projected.
pub const SPAN: i64 = 1_000_000_000_000_000_000;

/// Absolute value.
pub open spec fn magnitude(v: int) -> int {
    if v < 0 {
        -v
    } else {
        v
    }
}

/// `v` lies in `[-bound, bound]`.
pub open spec fn within(v: int, bound: int) -> bool {
    -bound <= v <= bound
}

/// Quotient of `n` by a positive `d`, rounded toward zero.
pub open spec fn div_trunc(n: int, d: int) -> int {
    if n >= 0 {
        n / d
    } else {
        -((-n) / d)
    }
}

/// Quotient of `n` by a positive `d`, rounded to the nearest integer, a
/// half away from zero.
pub open spec fn div_round(n: int, d: int) -> int {
    if n >= 0 {
        (2 * n + d) / (2 * d)
    } else {
        -((d - 2 * n) / (2 * d))
    }
}

/// `v` limited to `[-bound, bound]`.
pub open spec fn clamp_sym(v: int, bound: int) -> int {
    if v > bound {
        bound
    } else if v < -bound {
        -bound
    } else {
        v
    }
}

/// The product of a quantity `a` and a factor `f` given at the scale `FINE`,
/// rounded to the nearest count.
pub open spec fn scaled(a: int, f: int) -> int {
    div_round(a * f, 1_000_000_000_000)
}

/// A product is no larger in magnitude than the product of bounds on its
/// factors.
pub proof fn lemma_product_within(a: int, b: int, x: int, y: int)
    by (nonlinear_arith)
    requires
        within(a, x),
        within(b, y),
    ensures
        within(a * b, x * y),
{
}

/// Negating one factor negates the product.
pub proof fn lemma_product_negated(a: int, b: int)
    by (nonlinear_arith)
    ensures
        (-a) * b == -(a * b),
        a * (-b) == -(a * b),
{
}

/// Rounding toward zero commutes with negation.
pub proof fn lemma_div_trunc_negated(n: int, d: int)
    requires
        d > 0,
    ensures
        div_trunc(-n, d) == -div_trunc(n, d),
{
    if n == 0 {
        assert(0int / d == 0) by (nonlinear_arith)
            requires
                d > 0,
        ;
    }
}

/// Rounding toward zero loses less than one count, and never overshoots:
/// the quotient times the divisor lies between zero and the dividend, less
/// than a divisor away from the dividend.
pub proof fn lemma_div_trunc_error(n: int, d: int)
    requires
        d > 0,
    ensures
        n >= 0 ==> n - d < div_trunc(n, d) * d <= n,
        n <= 0 ==> n <= div_trunc(n, d) * d < n + d,
{
    if n >= 0 {
        vstd::arithmetic::div_mod::lemma_fundamental_div_mod(n, d);
        vstd::arithmetic::div_mod::lemma_mod_bound(n, d);
        assert((n / d) * d == d * (n / d)) by (nonlinear_arith);
    } else {
        let m = -n;
        vstd::arithmetic::div_mod::lemma_fundamental_div_mod(m, d);
        vstd::arithmetic::div_mod::lemma_mod_bound(m, d);
        assert((-(m / d)) * d == -(d * (m / d))) by (nonlinear_arith);
    }
}

/// Rounding to the nearest commutes with negation.
pub proof fn lemma_div_round_negated(n: int, d: int)
    requires
        d > 0,
    ensures
        div_round(-n, d) == -div_round(n, d),
{
    if n == 0 {
        assert((2 * 0 + d) / (2 * d) == 0) by (nonlinear_arith)
            requires
                d > 0,
        ;
    }
}

/// Rounding to the nearest is off by at most half a count: twice the
/// distance between the quotient times the divisor and the dividend is at
/// most the divisor.
pub proof fn lemma_div_round_error(n: int, d: int)
    requires
        d > 0,
    ensures
        2 * magnitude(div_round(n, d) * d - n) <= d,
{
    let m = 2 * magnitude(n) + d;
    let e = 2 * d;
    vstd::arithmetic::div_mod::lemma_fundamental_div_mod(m, e);
    vstd::arithmetic::div_mod::lemma_mod_bound(m, e);
    let q = m / e;
    assert(q * d * 2 == e * q) by (nonlinear_arith)
        requires
            e == 2 * d,
    ;
    if n >= 0 {
        assert(div_round(n, d) * d == q * d);
    } else {
        assert(div_round(n, d) * d == -(q * d)) by (nonlinear_arith)
            requires
                div_round(n, d) == -q,
        ;
    }
}

/// Rounding to the nearest keeps the order of the dividends.
pub proof fn lemma_div_round_monotonic(a: int, b: int, d: int)
    requires
        d > 0,
        a <= b,
    ensures
        div_round(a, d) <= div_round(b, d),
{
    if a >= 0 {
        vstd::arithmetic::div_mod::lemma_div_is_ordered(2 * a + d, 2 * b + d, 2 * d);
    } else if b >= 0 {
        vstd::arithmetic::div_mod::lemma_div_pos_is_pos(d - 2 * a, 2 * d);
        vstd::arithmetic::div_mod::lemma_div_pos_is_pos(2 * b + d, 2 * d);
    } else {
        vstd::arithmetic::div_mod::lemma_div_is_ordered(d - 2 * b, d - 2 * a, 2 * d);
    }
}

/// Rounding to the nearest leaves a whole quotient as it is.
pub proof fn lemma_div_round_whole(q: int, d: int)
    requires
        d > 0,
    ensures
        div_round(q * d, d) == q,
{
    let m = magnitude(q);
    assert(2 * (m * d) + d == m * (2 * d) + d) by (nonlinear_arith);
    vstd::arithmetic::div_mod::lemma_fundamental_div_mod_converse(
        2 * (m * d) + d,
        2 * d,
        m,
        d,
    );
    if q >= 0 {
        assert(q * d >= 0) by (nonlinear_arith)
            requires
                q >= 0,
                d > 0,
        ;
    } else {
        assert(q * d < 0 && -(q * d) == m * d) by (nonlinear_arith)
            requires
                q < 0,
                d > 0,
                m == -q,
        ;
    }
}

/// A dividend of at most `bound` divisors in magnitude rounds to a quotient
/// of at most `bound` in magnitude.
pub proof fn lemma_div_round_within(n: int, d: int, bound: int)
    requires
        d > 0,
        bound >= 0,
        within(n, bound * d),
    ensures
        within(div_round(n, d), bound),
{
    lemma_div_round_whole(bound, d);
    lemma_div_round_whole(-bound, d);
    lemma_product_negated(bound, d);
    lemma_div_round_monotonic(n, bound * d, d);
    lemma_div_round_monotonic((-bound) * d, n, d);
}

/// Scaling by a factor commutes with negating the quantity.
pub proof fn lemma_scaled_negated(a: int, f: int)
    ensures
        scaled(-a, f) == -scaled(a, f),
        scaled(a, -f) == -scaled(a, f),
{
    lemma_product_negated(a, f);
    lemma_div_round_negated(a * f, 1_000_000_000_000);
}

/// Divides, rounding to the nearest integer, a half away from zero.
pub fn round_div(n: i128, d: i128) -> (q: i128)
    requires
        0 < d,
        2 * magnitude(n as int) + d <= i128::MAX,
        2 * d <= i128::MAX,
    ensures
        q == div_round(n as int, d as int),
{
    if n >= 0 {
        (2 * n + d) / (2 * d)
    } else {
        -((d - 2 * n) / (2 * d))
    }
}

/// Multiplies the quantity `a` by the factor `f`, a fraction of one given at
/// the scale `FINE`.
pub fn mul_fraction(a: i64, f: i64) -> (r: i64)
    requires
        a != i64::MIN,
        within(f as int, FINE as int),
    ensures
        r == scaled(a as int, f as int),
        within(r as int, magnitude(a as int)),
{
    proof {
        lemma_product_within(a as int, f as int, magnitude(a as int), 1_000_000_000_000);
    }
    let product: i128 = (a as i128) * (f as i128);
    let quotient: i128 = round_div(product, 1_000_000_000_000);
    assert(within(quotient as int, magnitude(a as int)));
    quotient as i64
}

} // verus!
