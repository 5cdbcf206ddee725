//! Sphere contact detection and mass-based elastic collision resolution.
//!
//! Contact is decided on squared distances, so no square root is involved.
//! The resolver separates two overlapping spheres along their contact
//! normal, displacing the lighter body further, and exchanges a
//! momentum-conserving impulse along the same normal. When the two centers
//! coincide the contact normal is undefined; a fixed fallback axis (the
//! z axis) is used instead of dividing by zero.

use vstd::prelude::*;

verus! {

use crate::fxvec::{
    Vec3x,
    in_box,
    tdiv,
    abs_i,
    spec_isqrt,
    div_trunc,
    isqrt,
    lemma_tdiv_le,
    lemma_mul_abs_bound,
    lemma_mul_abs_bound2,
    lemma_mul_abs_factor,
    lemma_sum_abs_le,
    MAX_POS,
    MAX_VEL,
    MAX_RADIUS,
    MAX_MASS,
};

/// A body as the resolver sees it: a sphere with a velocity and a mass of
/// its own. The mass is carried separately from the radius because the
/// player keeps one fixed mass whatever hitbox sphere was struck.
#[derive(Clone, Copy, Debug, PartialEq, Eq, Structural)]
pub struct CollisionBody {
    pub pos: Vec3x,
    pub vel: Vec3x,
    pub radius: i64,
    pub mass: i64,
}

/// Machine-limit bounds every body handed to the resolver must satisfy.
pub open spec fn wf_body(c: CollisionBody) -> bool {
    &&& in_box(c.pos, MAX_POS as int)
    &&& in_box(c.vel, MAX_VEL as int)
    &&& 0 < c.radius <= MAX_RADIUS
    &&& 1 <= c.mass <= MAX_MASS
}

/// Squared distance between the two centers.
pub open spec fn spec_dist_sq(a: CollisionBody, b: CollisionBody) -> int {
    (b.pos.x - a.pos.x) * (b.pos.x - a.pos.x) + (b.pos.y - a.pos.y) * (b.pos.y - a.pos.y) + (
    b.pos.z - a.pos.z) * (b.pos.z - a.pos.z)
}

/// Two spheres touch when their center distance is at most the sum of
/// their radii, compared on squares.
pub open spec fn spec_in_contact(a: CollisionBody, b: CollisionBody) -> bool {
    spec_dist_sq(a, b) <= (a.radius + b.radius) * (a.radius + b.radius)
}

/// Contact test on squared distances.
pub fn in_contact(a: &CollisionBody, b: &CollisionBody) -> (r: bool)
    requires
        wf_body(*a),
        wf_body(*b),
    ensures
        r == spec_in_contact(*a, *b),
{
    let dx = b.pos.x - a.pos.x;
    let dy = b.pos.y - a.pos.y;
    let dz = b.pos.z - a.pos.z;
    proof {
        lemma_mul_abs_bound(dx as int, dx as int, 8_000_000);
        lemma_mul_abs_bound(dy as int, dy as int, 8_000_000);
        lemma_mul_abs_bound(dz as int, dz as int, 8_000_000);
    }
    let d2: i128 = (dx as i128) * (dx as i128) + (dy as i128) * (dy as i128) + (dz as i128) * (
    dz as i128);
    let r_sum = a.radius + b.radius;
    proof {
        lemma_mul_abs_bound(r_sum as int, r_sum as int, 2 * MAX_RADIUS as int);
    }
    d2 <= (r_sum as i128) * (r_sum as i128)
}

/// Contact axis: the center-to-center difference, or the z axis when the
/// centers coincide.
pub open spec fn eff_dx(a: CollisionBody, b: CollisionBody) -> int {
    if spec_dist_sq(a, b) == 0 {
        0
    } else {
        b.pos.x - a.pos.x
    }
}

pub open spec fn eff_dy(a: CollisionBody, b: CollisionBody) -> int {
    if spec_dist_sq(a, b) == 0 {
        0
    } else {
        b.pos.y - a.pos.y
    }
}

pub open spec fn eff_dz(a: CollisionBody, b: CollisionBody) -> int {
    if spec_dist_sq(a, b) == 0 {
        1
    } else {
        b.pos.z - a.pos.z
    }
}

/// Squared length of the contact axis (one for the fallback axis).
pub open spec fn eff_d2(a: CollisionBody, b: CollisionBody) -> int {
    if spec_dist_sq(a, b) == 0 {
        1
    } else {
        spec_dist_sq(a, b)
    }
}

/// Center distance, rounded down.
pub open spec fn eff_d(a: CollisionBody, b: CollisionBody) -> int {
    spec_isqrt(eff_d2(a, b))
}

/// Relative velocity of `a` against `b`, projected on the (unnormalized)
/// contact axis.
pub open spec fn vrel_dot_axis(a: CollisionBody, b: CollisionBody) -> int {
    (a.vel.x - b.vel.x) * eff_dx(a, b) + (a.vel.y - b.vel.y) * eff_dy(a, b) + (a.vel.z - b.vel.z)
        * eff_dz(a, b)
}

/// Common denominator of the impulse quotients: total mass times squared
/// axis length (the two axis normalizations folded together, exactly).
pub open spec fn imp_den(a: CollisionBody, b: CollisionBody) -> int {
    (a.mass + b.mass) * eff_d2(a, b)
}

/// Velocity change of `a` along axis component `di`.
pub open spec fn dv_a(a: CollisionBody, b: CollisionBody, di: int) -> int {
    tdiv(-2 * vrel_dot_axis(a, b) * b.mass * di, imp_den(a, b))
}

/// Velocity change of `b` along axis component `di`.
pub open spec fn dv_b(a: CollisionBody, b: CollisionBody, di: int) -> int {
    tdiv(2 * vrel_dot_axis(a, b) * a.mass * di, imp_den(a, b))
}

/// How deep the spheres overlap: sum of radii minus center distance.
pub open spec fn overlap(a: CollisionBody, b: CollisionBody) -> int {
    a.radius + b.radius - eff_d(a, b)
}

/// Common denominator of the correction quotients: total mass times
/// distance (the axis normalization).
pub open spec fn sh_den(a: CollisionBody, b: CollisionBody) -> int {
    (a.mass + b.mass) * eff_d(a, b)
}

/// Position shift of `a` along axis component `di`: backward, scaled by the
/// other body's mass, so the lighter body gives way further.
pub open spec fn sh_a(a: CollisionBody, b: CollisionBody, di: int) -> int {
    tdiv((-overlap(a, b)) * b.mass * di, sh_den(a, b))
}

/// Position shift of `b` along axis component `di`: forward.
pub open spec fn sh_b(a: CollisionBody, b: CollisionBody, di: int) -> int {
    tdiv(overlap(a, b) * a.mass * di, sh_den(a, b))
}

/// Squared distance between the two centers after the positional
/// correction: the real center difference plus the two shifts, which are
/// computed along the effective axis.
pub open spec fn sep_sq_after(a: CollisionBody, b: CollisionBody) -> int {
    let px = (b.pos.x - a.pos.x) + sh_b(a, b, eff_dx(a, b)) - sh_a(a, b, eff_dx(a, b));
    let py = (b.pos.y - a.pos.y) + sh_b(a, b, eff_dy(a, b)) - sh_a(a, b, eff_dy(a, b));
    let pz = (b.pos.z - a.pos.z) + sh_b(a, b, eff_dz(a, b)) - sh_a(a, b, eff_dz(a, b));
    px * px + py * py + pz * pz
}

/// Every squared distance is a sum of squares, hence non-negative.
proof fn lemma_dist_sq_nonneg(a: CollisionBody, b: CollisionBody)
    by (nonlinear_arith)
    ensures
        spec_dist_sq(a, b) >= 0,
{
}

/// Momentum is conserved to within one velocity quantum per unit of mass:
/// along every axis component `di`, the mass-weighted velocity changes of
/// the two bodies cancel, up to the two truncations, whose joint error is
/// strictly below the total mass. This holds for any component value, in
/// particular for the three components of the contact axis that
/// `mass_collision` applies.
pub proof fn lemma_momentum_conserved(a: CollisionBody, b: CollisionBody, di: int)
    requires
        1 <= a.mass,
        1 <= b.mass,
    ensures
        -(a.mass + b.mass) < a.mass * dv_a(a, b, di) + b.mass * dv_b(a, b, di) < a.mass + b.mass,
{
    lemma_dist_sq_nonneg(a, b);
    let n = vrel_dot_axis(a, b);
    let na = -2 * n * b.mass * di;
    let nb = 2 * n * a.mass * di;
    let den = imp_den(a, b);
    assert(eff_d2(a, b) >= 1);
    assert(den > 0) by (nonlinear_arith)
        requires
            den == (a.mass + b.mass) * eff_d2(a, b),
            a.mass >= 1,
            b.mass >= 1,
            eff_d2(a, b) >= 1,
    ;
    crate::fxvec::lemma_tdiv(na, den);
    crate::fxvec::lemma_tdiv(nb, den);
    let qa = tdiv(na, den);
    let qb = tdiv(nb, den);
    let ra = na - qa * den;
    let rb = nb - qb * den;
    assert(a.mass * na + b.mass * nb == 0) by (nonlinear_arith)
        requires
            na == -2 * n * b.mass * di,
            nb == 2 * n * a.mass * di,
    ;
    assert(-(a.mass + b.mass) < a.mass * qa + b.mass * qb < a.mass + b.mass) by (nonlinear_arith)
        requires
            den > 0,
            a.mass >= 1,
            b.mass >= 1,
            a.mass * na + b.mass * nb == 0,
            na == qa * den + ra,
            -den < ra < den,
            nb == qb * den + rb,
            -den < rb < den,
    ;
}

/// One positional-correction pair: the two shifts of a component differ
/// from the exact correction `o * e / d` by less than two ticks, stated
/// multiplied through by `d`.
proof fn lemma_one_shift(o: int, ma: int, mb: int, e: int, d: int)
    requires
        ma >= 1,
        mb >= 1,
        d >= 1,
    ensures
        -(2 * d) < d * (tdiv(o * ma * e, (ma + mb) * d) - tdiv((-o) * mb * e, (ma + mb) * d)) - o
            * e < 2 * d,
{
    let den = (ma + mb) * d;
    assert(den > 0) by (nonlinear_arith)
        requires
            den == (ma + mb) * d,
            ma >= 1,
            mb >= 1,
            d >= 1,
    ;
    let nb = o * ma * e;
    let na = (-o) * mb * e;
    crate::fxvec::lemma_tdiv(nb, den);
    crate::fxvec::lemma_tdiv(na, den);
    let qb = tdiv(nb, den);
    let qa = tdiv(na, den);
    let rb = nb - qb * den;
    let ra = na - qa * den;
    assert(den * qb - den * qa == (nb - na) - rb + ra) by (nonlinear_arith)
        requires
            nb == qb * den + rb,
            na == qa * den + ra,
    ;
    assert(nb - na == o * e * (ma + mb)) by (nonlinear_arith)
        requires
            nb == o * ma * e,
            na == (-o) * mb * e,
    ;
    assert((ma + mb) * (d * (qb - qa) - o * e) == den * qb - den * qa - o * e * (ma + mb))
        by (nonlinear_arith)
        requires
            den == (ma + mb) * d,
    ;
    assert((ma + mb) * (d * (qb - qa) - o * e) == ra - rb);
    assert(-(2 * d) < d * (qb - qa) - o * e < 2 * d) by (nonlinear_arith)
        requires
            den == (ma + mb) * d,
            den > 0,
            d >= 1,
            ma + mb >= 2,
            (ma + mb) * (d * (qb - qa) - o * e) == ra - rb,
            -den < ra < den,
            -den < rb < den,
    ;
}

/// A square shrinks by at most `2 * |v| * t` when its base moves by less
/// than `t`.
proof fn lemma_sq_lower(u: int, v: int, sv: int, t: int)
    by (nonlinear_arith)
    requires
        -t < u - v < t,
        -sv <= v <= sv,
        0 <= sv,
        0 <= t,
    ensures
        u * u >= v * v - 2 * sv * t,
{
}

/// Separation: after the positional correction the centers stand at least
/// the sum of the radii apart, up to a fixed epsilon of a few ticks
/// (thousandths of a unit). With `R = radiusA + radiusB`, the corrected
/// squared distance is at least `R^2 - 18 * R`, hence at least
/// `(R - 12)^2` for any body pair of meaningful size.
pub proof fn lemma_separation(a: CollisionBody, b: CollisionBody)
    requires
        wf_body(a),
        wf_body(b),
        spec_in_contact(a, b),
    ensures
        sep_sq_after(a, b) >= (a.radius + b.radius) * (a.radius + b.radius) - 18 * (a.radius
            + b.radius),
        a.radius + b.radius >= 24 ==> sep_sq_after(a, b) >= ((a.radius + b.radius) - 12) * ((
        a.radius + b.radius) - 12),
{
    lemma_dist_sq_nonneg(a, b);
    let big_r = a.radius + b.radius;
    let d2 = eff_d2(a, b);
    assert(d2 >= 1);
    crate::fxvec::lemma_isqrt_props(d2);
    let d = eff_d(a, b);
    assert(d >= 1) by (nonlinear_arith)
        requires
            d >= 0,
            d2 >= 1,
            d2 < (d + 1) * (d + 1),
    ;
    let ex = eff_dx(a, b);
    let ey = eff_dy(a, b);
    let ez = eff_dz(a, b);
    assert(ex * ex + ey * ey + ez * ez == d2);
    crate::fxvec::lemma_sum_abs_le(ex, ey, ez, d);
    assert(1 <= big_r * big_r) by (nonlinear_arith)
        requires
            big_r >= 2,
    ;
    assert(d <= big_r) by (nonlinear_arith)
        requires
            d * d <= d2,
            d2 <= big_r * big_r,
            d >= 0,
            big_r >= 2,
    ;
    let o = big_r - d;
    // shifts against the exact correction, one component at a time
    lemma_one_shift(o, a.mass as int, b.mass as int, ex, d);
    lemma_one_shift(o, a.mass as int, b.mass as int, ey, d);
    lemma_one_shift(o, a.mass as int, b.mass as int, ez, d);
    let sx = sh_b(a, b, ex) - sh_a(a, b, ex);
    let sy = sh_b(a, b, ey) - sh_a(a, b, ey);
    let sz = sh_b(a, b, ez) - sh_a(a, b, ez);
    let px = (b.pos.x - a.pos.x) + sx;
    let py = (b.pos.y - a.pos.y) + sy;
    let pz = (b.pos.z - a.pos.z) + sz;
    // when the centers coincide every component of their difference is zero
    let ux = b.pos.x - a.pos.x;
    let uy = b.pos.y - a.pos.y;
    let uz = b.pos.z - a.pos.z;
    assert(ux * ux + uy * uy + uz * uz == 0 ==> ux == 0 && uy == 0 && uz == 0) by (nonlinear_arith);
    // the real center difference equals the axis, except on the fallback
    // z component where it is one tick short
    assert(-1 <= ux - ex <= 1 && -1 <= uy - ey <= 1 && -1 <= uz - ez <= 1);
    assert(-d <= d * ((b.pos.x - a.pos.x) - ex) <= d && -d <= d * ((b.pos.y - a.pos.y) - ey) <= d
        && -d <= d * ((b.pos.z - a.pos.z) - ez) <= d) by (nonlinear_arith)
        requires
            d >= 1,
            -1 <= (b.pos.x - a.pos.x) - ex <= 1,
            -1 <= (b.pos.y - a.pos.y) - ey <= 1,
            -1 <= (b.pos.z - a.pos.z) - ez <= 1,
    ;
    // d * p_i is within 3d of R * e_i
    assert(-(3 * d) < d * px - big_r * ex < 3 * d && -(3 * d) < d * py - big_r * ey < 3 * d && -(3
        * d) < d * pz - big_r * ez < 3 * d) by (nonlinear_arith)
        requires
            d >= 1,
            o == big_r - d,
            px == (b.pos.x - a.pos.x) + sx,
            py == (b.pos.y - a.pos.y) + sy,
            pz == (b.pos.z - a.pos.z) + sz,
            -d <= d * ((b.pos.x - a.pos.x) - ex) <= d,
            -d <= d * ((b.pos.y - a.pos.y) - ey) <= d,
            -d <= d * ((b.pos.z - a.pos.z) - ez) <= d,
            -(2 * d) < d * sx - o * ex < 2 * d,
            -(2 * d) < d * sy - o * ey < 2 * d,
            -(2 * d) < d * sz - o * ez < 2 * d,
    ;
    lemma_mul_abs_factor(big_r, ex, big_r);
    lemma_mul_abs_factor(big_r, ey, big_r);
    lemma_mul_abs_factor(big_r, ez, big_r);
    assert(big_r * abs_i(ex) >= 0 && big_r * abs_i(ey) >= 0 && big_r * abs_i(ez) >= 0)
        by (nonlinear_arith)
        requires
            big_r >= 2,
            abs_i(ex) >= 0,
            abs_i(ey) >= 0,
            abs_i(ez) >= 0,
    ;
    lemma_sq_lower(d * px, big_r * ex, big_r * abs_i(ex), 3 * d);
    lemma_sq_lower(d * py, big_r * ey, big_r * abs_i(ey), 3 * d);
    lemma_sq_lower(d * pz, big_r * ez, big_r * abs_i(ez), 3 * d);
    // assemble the three components, in stages
    let ax = abs_i(ex);
    let ay = abs_i(ey);
    let az = abs_i(ez);
    let s_abs = ax + ay + az;
    let bb = big_r * big_r;
    assert((big_r * ex) * (big_r * ex) == bb * (ex * ex) && (big_r * ey) * (big_r * ey) == bb * (ey
        * ey) && (big_r * ez) * (big_r * ez) == bb * (ez * ez)) by (nonlinear_arith)
        requires
            bb == big_r * big_r,
    ;
    assert(bb * (ex * ex) + bb * (ey * ey) + bb * (ez * ez) == bb * d2) by (nonlinear_arith)
        requires
            ex * ex + ey * ey + ez * ez == d2,
    ;
    assert((big_r * ex) * (big_r * ex) + (big_r * ey) * (big_r * ey) + (big_r * ez) * (big_r * ez)
        == (big_r * big_r) * d2);
    assert(2 * (big_r * ax) * (3 * d) + 2 * (big_r * ay) * (3 * d) + 2 * (big_r * az) * (3 * d)
        == 6 * d * big_r * s_abs) by (nonlinear_arith)
        requires
            s_abs == ax + ay + az,
    ;
    assert((d * px) * (d * px) + (d * py) * (d * py) + (d * pz) * (d * pz) >= (big_r * big_r) * d2
        - 6 * d * big_r * s_abs);
    assert((big_r * big_r) * d2 >= (big_r * big_r) * (d * d)) by (nonlinear_arith)
        requires
            d * d <= d2,
            big_r >= 2,
    ;
    assert(6 * d * big_r * s_abs <= 18 * big_r * (d * d)) by (nonlinear_arith)
        requires
            0 <= s_abs <= 2 * d + 1,
            d >= 1,
            big_r >= 2,
    ;
    assert((d * px) * (d * px) + (d * py) * (d * py) + (d * pz) * (d * pz) == (d * d) * (px * px
        + py * py + pz * pz)) by (nonlinear_arith);
    assert((big_r * big_r) * (d * d) - 18 * big_r * (d * d) == (d * d) * (big_r * big_r - 18
        * big_r)) by (nonlinear_arith);
    assert((d * d) * (px * px + py * py + pz * pz) >= (d * d) * (big_r * big_r - 18 * big_r));
    assert(d * d >= 1) by (nonlinear_arith)
        requires
            d >= 1,
    ;
    assert(px * px + py * py + pz * pz >= big_r * big_r - 18 * big_r) by (nonlinear_arith)
        requires
            d * d >= 1,
            (d * d) * (px * px + py * py + pz * pz) >= (d * d) * (big_r * big_r - 18 * big_r),
    ;
    assert(big_r >= 24 ==> big_r * big_r - 18 * big_r >= (big_r - 12) * (big_r - 12))
        by (nonlinear_arith)
    ;
}

/// One impulse quotient: `-2 * vrd * m_other * di` over `m_sum * d2`,
/// bounded by twelve times the velocity box.
fn imp_quot(vrd: i128, m_other: i64, di: i64, m_sum: i64, d2: i128, d: i64) -> (q: i64)
    requires
        1 <= d <= 14_200_000,
        1 <= d2 <= 200_000_000_000_000,
        (d as int) * (d as int) <= d2,
        -48_000_000_000_000 <= vrd <= 48_000_000_000_000,
        -(6_000_000 * (d as int)) <= vrd <= 6_000_000 * (d as int),
        1 <= m_other <= 135_000_000_000_000_000,
        m_other <= m_sum <= 270_000_000_000_000_000,
        -8_000_000 <= di <= 8_000_000,
        -(d as int) <= di <= d,
    ensures
        q == tdiv(-2 * (vrd as int) * (m_other as int) * (di as int), (m_sum as int) * d2),
        -12_000_000 <= q <= 12_000_000,
{
    proof {
        lemma_mul_abs_bound2(-2 * (vrd as int), m_other as int, 96_000_000_000_000, 135_000_000_000_000_000);
        lemma_mul_abs_bound2(
            -2 * (vrd as int) * (m_other as int),
            di as int,
            12_960_000_000_000_000_000_000_000_000_000,
            8_000_000,
        );
        lemma_mul_abs_bound2(
            m_sum as int,
            d2 as int,
            270_000_000_000_000_000,
            200_000_000_000_000,
        );
        // the quotient bound: |n| <= 12_000_000 * den
        assert(-(12_000_000 * ((m_sum as int) * d2)) <= -2 * (vrd as int) * (m_other as int) * (
        di as int) <= 12_000_000 * ((m_sum as int) * d2)) by (nonlinear_arith)
            requires
                1 <= d,
                (d as int) * (d as int) <= d2,
                -(6_000_000 * (d as int)) <= vrd <= 6_000_000 * (d as int),
                1 <= m_other <= m_sum,
                -(d as int) <= di <= d,
        ;
        assert((m_sum as int) * d2 > 0) by (nonlinear_arith)
            requires
                m_sum >= 1,
                d2 >= 1,
        ;
        lemma_tdiv_le(
            -2 * (vrd as int) * (m_other as int) * (di as int),
            (m_sum as int) * d2,
            12_000_000,
        );
    }
    let num: i128 = -2 * vrd * (m_other as i128) * (di as i128);
    let den: i128 = (m_sum as i128) * d2;
    let q = div_trunc(num, den);
    q as i64
}

/// One correction quotient: `o * m_scale * di` over `m_sum * d`, bounded by
/// the overlap magnitude.
fn shift_quot(o: i64, m_scale: i64, di: i64, m_sum: i64, d: i64) -> (q: i64)
    requires
        1 <= d <= 14_200_000,
        -1_100_000 <= o <= 1_100_000,
        1 <= m_scale <= 135_000_000_000_000_000,
        m_scale <= m_sum <= 270_000_000_000_000_000,
        -8_000_000 <= di <= 8_000_000,
        -(d as int) <= di <= d,
    ensures
        q == tdiv((o as int) * (m_scale as int) * (di as int), (m_sum as int) * (d as int)),
        -1_100_000 <= q <= 1_100_000,
{
    proof {
        lemma_mul_abs_bound2(o as int, m_scale as int, 1_100_000, 135_000_000_000_000_000);
        lemma_mul_abs_bound2(
            (o as int) * (m_scale as int),
            di as int,
            148_500_000_000_000_000_000_000,
            8_000_000,
        );
        lemma_mul_abs_bound2(m_sum as int, d as int, 270_000_000_000_000_000, 14_200_000);
        assert(-(1_100_000 * ((m_sum as int) * (d as int))) <= (o as int) * (m_scale as int) * (
        di as int) <= 1_100_000 * ((m_sum as int) * (d as int))) by (nonlinear_arith)
            requires
                1 <= d,
                -1_100_000 <= o <= 1_100_000,
                1 <= m_scale <= m_sum,
                -(d as int) <= di <= d,
        ;
        assert((m_sum as int) * (d as int) > 0) by (nonlinear_arith)
            requires
                m_sum >= 1,
                d >= 1,
        ;
        lemma_tdiv_le(
            (o as int) * (m_scale as int) * (di as int),
            (m_sum as int) * (d as int),
            1_100_000,
        );
    }
    let num: i128 = (o as i128) * (m_scale as i128) * (di as i128);
    let den: i128 = (m_sum as i128) * (d as i128);
    let q = div_trunc(num, den);
    q as i64
}

/// Resolves one two-body contact in place: pushes the spheres apart along
/// the contact normal (the lighter body further) and exchanges the elastic
/// impulse along the same normal. Tangential velocity components are left
/// untouched. Coincident centers fall back to the z axis.
pub fn mass_collision(a: &mut CollisionBody, b: &mut CollisionBody)
    requires
        wf_body(*old(a)),
        wf_body(*old(b)),
        spec_in_contact(*old(a), *old(b)),
    ensures
        final(a).radius == old(a).radius,
        final(a).mass == old(a).mass,
        final(b).radius == old(b).radius,
        final(b).mass == old(b).mass,
        final(a).pos.x == old(a).pos.x + sh_a(*old(a), *old(b), eff_dx(*old(a), *old(b))),
        final(a).pos.y == old(a).pos.y + sh_a(*old(a), *old(b), eff_dy(*old(a), *old(b))),
        final(a).pos.z == old(a).pos.z + sh_a(*old(a), *old(b), eff_dz(*old(a), *old(b))),
        final(b).pos.x == old(b).pos.x + sh_b(*old(a), *old(b), eff_dx(*old(a), *old(b))),
        final(b).pos.y == old(b).pos.y + sh_b(*old(a), *old(b), eff_dy(*old(a), *old(b))),
        final(b).pos.z == old(b).pos.z + sh_b(*old(a), *old(b), eff_dz(*old(a), *old(b))),
        final(a).vel.x == old(a).vel.x + dv_a(*old(a), *old(b), eff_dx(*old(a), *old(b))),
        final(a).vel.y == old(a).vel.y + dv_a(*old(a), *old(b), eff_dy(*old(a), *old(b))),
        final(a).vel.z == old(a).vel.z + dv_a(*old(a), *old(b), eff_dz(*old(a), *old(b))),
        final(b).vel.x == old(b).vel.x + dv_b(*old(a), *old(b), eff_dx(*old(a), *old(b))),
        final(b).vel.y == old(b).vel.y + dv_b(*old(a), *old(b), eff_dy(*old(a), *old(b))),
        final(b).vel.z == old(b).vel.z + dv_b(*old(a), *old(b), eff_dz(*old(a), *old(b))),
        in_box(final(a).pos, MAX_POS + 1_100_000),
        in_box(final(b).pos, MAX_POS + 1_100_000),
        in_box(final(a).vel, 13_000_000),
        in_box(final(b).vel, 13_000_000),
        // momentum conservation: along every axis the mass-weighted
        // velocity changes cancel, to within one velocity tick per unit
        // of mass
        -(old(a).mass + old(b).mass) < old(a).mass * (final(a).vel.x - old(a).vel.x) + old(b).mass
            * (final(b).vel.x - old(b).vel.x) < old(a).mass + old(b).mass,
        -(old(a).mass + old(b).mass) < old(a).mass * (final(a).vel.y - old(a).vel.y) + old(b).mass
            * (final(b).vel.y - old(b).vel.y) < old(a).mass + old(b).mass,
        -(old(a).mass + old(b).mass) < old(a).mass * (final(a).vel.z - old(a).vel.z) + old(b).mass
            * (final(b).vel.z - old(b).vel.z) < old(a).mass + old(b).mass,
        // separation: the corrected centers stand at least the summed
        // radii apart, up to a fixed epsilon of a few ticks
        old(a).radius + old(b).radius >= 24 ==> (final(b).pos.x - final(a).pos.x) * (final(b).pos.x
            - final(a).pos.x) + (final(b).pos.y - final(a).pos.y) * (final(b).pos.y
            - final(a).pos.y) + (final(b).pos.z - final(a).pos.z) * (final(b).pos.z
            - final(a).pos.z) >= (old(a).radius + old(b).radius - 12) * (old(a).radius
            + old(b).radius - 12),
{
    let av = *a;
    let bv = *b;
    let dx0 = bv.pos.x - av.pos.x;
    let dy0 = bv.pos.y - av.pos.y;
    let dz0 = bv.pos.z - av.pos.z;
    proof {
        lemma_mul_abs_bound(dx0 as int, dx0 as int, 8_000_000);
        lemma_mul_abs_bound(dy0 as int, dy0 as int, 8_000_000);
        lemma_mul_abs_bound(dz0 as int, dz0 as int, 8_000_000);
        assert((dx0 as int) * (dx0 as int) >= 0 && (dy0 as int) * (dy0 as int) >= 0 && (
        dz0 as int) * (dz0 as int) >= 0) by (nonlinear_arith);
    }
    let d2raw: i128 = (dx0 as i128) * (dx0 as i128) + (dy0 as i128) * (dy0 as i128) + (dz0 as i128)
        * (dz0 as i128);
    let dx: i64;
    let dy: i64;
    let dz: i64;
    let d2: i128;
    if d2raw == 0 {
        dx = 0;
        dy = 0;
        dz = 1;
        d2 = 1;
    } else {
        dx = dx0;
        dy = dy0;
        dz = dz0;
        d2 = d2raw;
    }
    proof {
        assert(dx as int == eff_dx(av, bv));
        assert(dy as int == eff_dy(av, bv));
        assert(dz as int == eff_dz(av, bv));
        assert(d2 as int == eff_d2(av, bv));
        assert(d2 >= 1);
    }
    let d: i64 = isqrt(d2);
    proof {
        assert(d >= 1);
        assert(d < 14_200_000) by (nonlinear_arith)
            requires
                (d as int) * (d as int) <= d2,
                d2 <= 200_000_000_000_000,
                d >= 0,
        ;
        assert((dx as int) * (dx as int) + (dy as int) * (dy as int) + (dz as int) * (dz as int)
            < ((d as int) + 1) * ((d as int) + 1));
        lemma_sum_abs_le(dx as int, dy as int, dz as int, d as int);
    }
    let r_sum = av.radius + bv.radius;
    // the spheres touch, so the distance is at most the sum of radii
    proof {
        lemma_mul_abs_bound(r_sum as int, r_sum as int, 2 * MAX_RADIUS as int);
        assert(1 <= (r_sum as int) * (r_sum as int)) by (nonlinear_arith)
            requires
                r_sum >= 2,
        ;
        assert(d2 <= (r_sum as int) * (r_sum as int));
        assert(d <= r_sum) by (nonlinear_arith)
            requires
                (d as int) * (d as int) <= d2,
                d2 <= (r_sum as int) * (r_sum as int),
                d >= 0,
                r_sum >= 2,
        ;
    }
    let ov: i64 = r_sum - d;
    let m_sum: i64 = av.mass + bv.mass;
    let rvx = av.vel.x - bv.vel.x;
    let rvy = av.vel.y - bv.vel.y;
    let rvz = av.vel.z - bv.vel.z;
    proof {
        lemma_mul_abs_bound2(rvx as int, dx as int, 2_000_000, 8_000_000);
        lemma_mul_abs_bound2(rvy as int, dy as int, 2_000_000, 8_000_000);
        lemma_mul_abs_bound2(rvz as int, dz as int, 2_000_000, 8_000_000);
        lemma_mul_abs_factor(rvx as int, dx as int, 2_000_000);
        lemma_mul_abs_factor(rvy as int, dy as int, 2_000_000);
        lemma_mul_abs_factor(rvz as int, dz as int, 2_000_000);
    }
    let vrd: i128 = (rvx as i128) * (dx as i128) + (rvy as i128) * (dy as i128) + (rvz as i128) * (
    dz as i128);
    proof {
        assert(vrd == vrel_dot_axis(av, bv));
        assert(-(6_000_000 * (d as int)) <= vrd <= 6_000_000 * (d as int));
    }
    // impulse quotients
    let qax = imp_quot(vrd, bv.mass, dx, m_sum, d2, d);
    let qay = imp_quot(vrd, bv.mass, dy, m_sum, d2, d);
    let qaz = imp_quot(vrd, bv.mass, dz, m_sum, d2, d);
    let qbx = imp_quot(-vrd, av.mass, dx, m_sum, d2, d);
    let qby = imp_quot(-vrd, av.mass, dy, m_sum, d2, d);
    let qbz = imp_quot(-vrd, av.mass, dz, m_sum, d2, d);
    // correction quotients
    let sax = shift_quot(-ov, bv.mass, dx, m_sum, d);
    let say = shift_quot(-ov, bv.mass, dy, m_sum, d);
    let saz = shift_quot(-ov, bv.mass, dz, m_sum, d);
    let sbx = shift_quot(ov, av.mass, dx, m_sum, d);
    let sby = shift_quot(ov, av.mass, dy, m_sum, d);
    let sbz = shift_quot(ov, av.mass, dz, m_sum, d);
    proof {
        assert(qax as int == dv_a(av, bv, eff_dx(av, bv)));
        assert(qay as int == dv_a(av, bv, eff_dy(av, bv)));
        assert(qaz as int == dv_a(av, bv, eff_dz(av, bv)));
        assert(qbx as int == dv_b(av, bv, eff_dx(av, bv)));
        assert(qby as int == dv_b(av, bv, eff_dy(av, bv)));
        assert(qbz as int == dv_b(av, bv, eff_dz(av, bv)));
        assert(sax as int == sh_a(av, bv, eff_dx(av, bv)));
        assert(say as int == sh_a(av, bv, eff_dy(av, bv)));
        assert(saz as int == sh_a(av, bv, eff_dz(av, bv)));
        assert(sbx as int == sh_b(av, bv, eff_dx(av, bv)));
        assert(sby as int == sh_b(av, bv, eff_dy(av, bv)));
        assert(sbz as int == sh_b(av, bv, eff_dz(av, bv)));
    }
    a.pos = Vec3x { x: av.pos.x + sax, y: av.pos.y + say, z: av.pos.z + saz };
    b.pos = Vec3x { x: bv.pos.x + sbx, y: bv.pos.y + sby, z: bv.pos.z + sbz };
    a.vel = Vec3x { x: av.vel.x + qax, y: av.vel.y + qay, z: av.vel.z + qaz };
    b.vel = Vec3x { x: bv.vel.x + qbx, y: bv.vel.y + qby, z: bv.vel.z + qbz };
    proof {
        lemma_momentum_conserved(av, bv, eff_dx(av, bv));
        lemma_momentum_conserved(av, bv, eff_dy(av, bv));
        lemma_momentum_conserved(av, bv, eff_dz(av, bv));
        lemma_separation(av, bv);
        assert(sep_sq_after(av, bv) == (b.pos.x - a.pos.x) * (b.pos.x - a.pos.x) + (b.pos.y
            - a.pos.y) * (b.pos.y - a.pos.y) + (b.pos.z - a.pos.z) * (b.pos.z - a.pos.z));
    }
}

} // verus!
