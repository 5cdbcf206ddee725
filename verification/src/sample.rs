//! Random sampling: uniform draws, near-unit random directions, points on
//! the unit circle, and rejection-sampled truncated normals.
//!
//! Every contract here states only what holds of *every* outcome; which
//! value comes back is chance.

use vstd::prelude::*;

verus! {

use crate::fxvec::{
    Vec3x,
    in_box,
    spec_norm_sq,
    isqrt,
    div_trunc,
    normalize_milli,
    lemma_mul_abs_bound,
    lemma_mul_abs_bound2,
    lemma_tdiv_le,
};

/// Relies on rand's `Rng::random_range` over the thread-local generator:
/// the draw is uniformly distributed over the closed range and never
/// outside it (the call panics only on an empty range, which the
/// precondition excludes).
#[verifier::external_body]
fn rand_in_range(lo: i64, hi: i64) -> (r: i64)
    requires
        lo <= hi,
    ensures
        lo <= r <= hi,
{
    rand::Rng::random_range(&mut rand::rng(), lo..=hi)
}

/// One draw of an approximate standard normal, scaled by a thousand: the
/// sum of twelve uniform milli-draws, centered. Always in
/// `[-6000, 6000]`.
fn normal_milli() -> (r: i64)
    ensures
        -6000 <= r <= 6000,
{
    let mut sum: i64 = 0;
    for j in 0..12u32
        invariant
            0 <= sum <= 1000 * j,
    {
        sum = sum + rand_in_range(0, 1000);
    }
    sum - 6000
}

/// Truncated normal sampling by rejection: draws from an approximate
/// normal with the given mean and deviation until a value lands inside
/// `[lower, upper]`; a draw budget keeps the loop finite, and the mean
/// (inside the range by precondition) is the final fallback. The result
/// never leaves `[lower, upper]`, however many draws it takes.
pub fn sample_truncated_norm(mean: i64, std_dev: i64, lower: i64, upper: i64) -> (r: i64)
    requires
        -1_000_000_000 <= lower <= mean <= upper <= 1_000_000_000,
        0 <= std_dev <= 1_000_000,
    ensures
        lower <= r <= upper,
{
    for attempt in 0..64u32
        invariant
            -1_000_000_000 <= lower <= mean <= upper <= 1_000_000_000,
            0 <= std_dev <= 1_000_000,
    {
        let dev = normal_milli();
        proof {
            lemma_mul_abs_bound2(dev as int, std_dev as int, 6000, 1_000_000);
            lemma_tdiv_le(dev * std_dev, 1000, 6_000_000);
        }
        let off = div_trunc((dev as i128) * (std_dev as i128), 1000);
        let v = mean + (off as i64);
        if lower <= v && v <= upper {
            return v;
        }
    }
    mean
}

/// A random direction of (almost) unit length, `SCALE` ticks: a point is
/// drawn from the cube, rejected unless it lands in a spherical shell
/// around the origin, and scaled to length one thousand. The fallback
/// after the draw budget is the z axis.
pub fn random_unit_scaled() -> (r: Vec3x)
    ensures
        990_000 <= spec_norm_sq(r) <= 1_011_000,
        in_box(r, 1_006),
{
    for attempt in 0..64u32
    {
        let x = rand_in_range(-1000, 1000);
        let y = rand_in_range(-1000, 1000);
        let z = rand_in_range(-1000, 1000);
        proof {
            lemma_mul_abs_bound(x as int, x as int, 1000);
            lemma_mul_abs_bound(y as int, y as int, 1000);
            lemma_mul_abs_bound(z as int, z as int, 1000);
        }
        let n2: i64 = x * x + y * y + z * z;
        if 250_000 <= n2 && n2 <= 1_000_000 {
            let v = Vec3x { x, y, z };
            assert(spec_norm_sq(v) == n2);
            return normalize_milli(v);
        }
    }
    Vec3x { x: 0, y: 0, z: 1000 }
}

/// A random point on the milli-unit circle, as a cosine/sine pair: the
/// cosine is drawn uniformly, the sine is the matching square root with a
/// random sign. The pair always lies within one rounding step of the
/// circle.
pub fn circle_point() -> (p: (i64, i64))
    ensures
        -1000 <= p.0 <= 1000,
        -1000 <= p.1 <= 1000,
        1_000_000 - 2001 <= p.0 * p.0 + p.1 * p.1 <= 1_000_000,
{
    let c = rand_in_range(-1000, 1000);
    proof {
        lemma_mul_abs_bound(c as int, c as int, 1000);
        assert((c as int) * (c as int) >= 0) by (nonlinear_arith);
    }
    let s0 = isqrt((1_000_000 - c * c) as i128);
    proof {
        assert(s0 * s0 <= 1_000_000);
        assert(s0 <= 1000) by (nonlinear_arith)
            requires
                s0 >= 0,
                s0 * s0 <= 1_000_000,
        ;
        assert(1_000_000 - c * c < (s0 + 1) * (s0 + 1));
        assert((s0 + 1) * (s0 + 1) == s0 * s0 + 2 * s0 + 1) by (nonlinear_arith);
        assert(c * c + s0 * s0 > 1_000_000 - 2 * s0 - 1);
        assert((-s0) * (-s0) == s0 * s0) by (nonlinear_arith);
    }
    let sign = rand_in_range(0, 1);
    let s = if sign == 1 {
        -s0
    } else {
        s0
    };
    (c, s)
}

} // verus!
