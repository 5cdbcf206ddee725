//! The speed law: the smaller a body, the faster it is sent on its way.
//!
//! The law is `f(x) = 2 * (-tanh(x / 2 - 2.5) + 2)` in world units, a
//! strictly decreasing map from body size into the open band `(2, 6)`.
//! Fixed-point integers cannot carry the hyperbolic tangent itself, so the
//! simulation uses its classic rational approximant
//! `tanh t ~ t * (27 + t^2) / (27 + 9 * t^2)`, exact to a third-order
//! contact at zero and equal to one at `t = 3`, and saturates the output
//! beyond that point, where the approximant would leave the band.
//!
//! In milli-units, with `a = size - 5000`, the law becomes
//! `4000 - a * (108000000 + a^2) / (108000000 + 9 * a^2)`, saturated to
//! `2000` for `a >= 6000` and to `6000` for `a <= -6000`.

use vstd::prelude::*;

verus! {

use crate::fxvec::{tdiv, lemma_tdiv_le, MAX_RADIUS};

/// Numerator of the unsaturated law term, over `a = size - 5000`.
pub open spec fn speed_num(a: int) -> int {
    a * (108000000 + a * a)
}

/// Denominator of the unsaturated law term.
pub open spec fn speed_den(a: int) -> int {
    108000000 + 9 * (a * a)
}

/// The speed assigned to a body of the given milli-unit size.
pub open spec fn spec_speed_of_size(s: int) -> int {
    let a = s - 5000;
    if a >= 6000 {
        2000
    } else if a <= -6000 {
        6000
    } else {
        4000 - tdiv(speed_num(a), speed_den(a))
    }
}

/// `2000 * den - num == (6000 - a)^3` and `2000 * den + num == (a + 6000)^3`:
/// the law term stays strictly inside the band while `|a| < 6000`.
proof fn lemma_speed_term_cubes(a: int)
    by (nonlinear_arith)
    ensures
        2000 * (108000000 + 9 * (a * a)) - a * (108000000 + a * a) == (6000 - a) * (6000 - a) * (
        6000 - a),
        2000 * (108000000 + 9 * (a * a)) + a * (108000000 + a * a) == (a + 6000) * (a + 6000) * (a
            + 6000),
        108000000 + 9 * (a * a) >= 108000000,
{
}

/// While `|a| < 6000` the law term is bounded by the band half-width.
proof fn lemma_speed_term_in_band(a: int)
    requires
        -6000 < a < 6000,
    ensures
        -(2000 * speed_den(a)) <= speed_num(a) <= 2000 * speed_den(a),
        speed_den(a) > 0,
{
    lemma_speed_term_cubes(a);
    assert((6000 - a) * (6000 - a) * (6000 - a) > 0 && (a + 6000) * (a + 6000) * (a + 6000) > 0)
        by (nonlinear_arith)
        requires
            -6000 < a < 6000,
    ;
}

/// The executable speed law; always inside the band `[2000, 6000]`.
pub fn speed_of_size(size: i64) -> (v: i64)
    requires
        0 < size <= MAX_RADIUS,
    ensures
        v == spec_speed_of_size(size as int),
        2000 <= v <= 6000,
{
    let a: i64 = size - 5000;
    if a >= 6000 {
        2000
    } else if a <= -6000 {
        6000
    } else {
        proof {
            lemma_speed_term_in_band(a as int);
            lemma_tdiv_le(speed_num(a as int), speed_den(a as int), 2000);
            crate::fxvec::lemma_mul_abs_bound(a as int, a as int, 6000);
            crate::fxvec::lemma_mul_abs_bound2(
                a as int,
                108000000 + (a as int) * (a as int),
                6000,
                144000000,
            );
        }
        let a2: i64 = a * a;
        let num: i64 = a * (108000000 + a2);
        let den: i64 = 108000000 + 9 * a2;
        let q = crate::fxvec::div_trunc(num as i128, den as i128);
        4000 - (q as i64)
    }
}

/// The exact rational law is strictly decreasing: for any two sizes
/// `x1 < x2`, the law value at `x1` exceeds the one at `x2`, stated by
/// cross-multiplying the two fractions. This is the speed-law monotonicity
/// property (smaller bodies are always prescribed a strictly higher speed);
/// the executable value additionally truncates and saturates, which can
/// only merge neighbouring values, never reorder them.
pub proof fn lemma_speed_law_strictly_decreasing(x1: int, x2: int)
    requires
        x1 < x2,
    ensures
        speed_num(x1 - 5000) * speed_den(x2 - 5000) < speed_num(x2 - 5000) * speed_den(x1 - 5000),
{
    lemma_speed_cross_product(x1 - 5000, x2 - 5000);
}

/// Cross-multiplied form of the decrease, over `a = x1 - 5000` and
/// `b = x2 - 5000`: the difference factors as
/// `(b - a) * ((3ab - 108000000)^2 + 108000000 * (a - b)^2)`,
/// which is strictly positive whenever `a < b`.
#[verifier::rlimit(60)]
proof fn lemma_speed_cross_product(a: int, b: int)
    by (nonlinear_arith)
    requires
        a < b,
    ensures
        a * (108000000 + a * a) * (108000000 + 9 * (b * b)) < b * (108000000 + b * b) * (108000000
            + 9 * (a * a)),
{
}

/// The executable law never reorders sizes: a larger body never gets a
/// strictly higher speed.
pub proof fn lemma_speed_of_size_nonincreasing(x1: int, x2: int)
    requires
        x1 <= x2,
    ensures
        spec_speed_of_size(x1) >= spec_speed_of_size(x2),
{
    let a = x1 - 5000;
    let b = x2 - 5000;
    if a >= 6000 {
        // both saturated low
    } else if b <= -6000 {
        // both saturated high
    } else {
        if -6000 < a < 6000 {
            lemma_speed_term_in_band(a);
            lemma_tdiv_le(speed_num(a), speed_den(a), 2000);
        }
        if -6000 < b < 6000 {
            lemma_speed_term_in_band(b);
            lemma_tdiv_le(speed_num(b), speed_den(b), 2000);
        }
        if -6000 < a && b < 6000 && a < b {
            lemma_speed_term_in_band(a);
            lemma_speed_term_in_band(b);
            lemma_speed_law_strictly_decreasing(x1, x2);
            lemma_tdiv_ratio_ordered(speed_num(a), speed_den(a), speed_num(b), speed_den(b));
        }
    }
}

/// Truncating division respects the order of the exact fractions.
proof fn lemma_tdiv_ratio_ordered(n1: int, d1: int, n2: int, d2: int)
    requires
        d1 > 0,
        d2 > 0,
        n1 * d2 <= n2 * d1,
    ensures
        tdiv(n1, d1) <= tdiv(n2, d2),
{
    crate::fxvec::lemma_tdiv(n1, d1);
    crate::fxvec::lemma_tdiv(n2, d2);
    let q1 = tdiv(n1, d1);
    let r1 = n1 - q1 * d1;
    let q2 = tdiv(n2, d2);
    let r2 = n2 - q2 * d2;
    assert(q1 <= q2) by (nonlinear_arith)
        requires
            d1 > 0,
            d2 > 0,
            n1 * d2 <= n2 * d1,
            n1 == q1 * d1 + r1,
            n2 == q2 * d2 + r2,
            n1 >= 0 ==> 0 <= r1 < d1,
            n1 < 0 ==> -d1 < r1 <= 0 && q1 <= 0,
            n2 >= 0 ==> 0 <= r2 < d2 && q2 >= 0,
            n2 < 0 ==> -d2 < r2 <= 0,
    ;
}

} // verus!
