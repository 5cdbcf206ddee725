//! The fragmentation engine: a struck body is removed and, unless it is
//! already below the minimum size, replaced by two half-size children that
//! fly apart in exactly opposite directions.
//!
//! The split axis is drawn at random in the plane perpendicular to the
//! projectile's travel direction: two perpendicular axes are built from the
//! travel direction by crossing twice, and a random point of the unit
//! circle mixes them. The children's speeds follow the speed law for their
//! new size; their spins are opposite as well.

use vstd::prelude::*;

verus! {

use crate::fxvec::{Vec3x, in_box, tdiv, spec_norm_sq, spec_dot, spec_isqrt, normalize_milli, MAX_POS, MAX_RADIUS};
use crate::body::{Body, wf_body_state};
use crate::speed::{speed_of_size, spec_speed_of_size};
use crate::score::{spec_class_of_size, spec_score_of_class, class_of_size, score_of_class, MAX_CLASS_SIZE};
use crate::sample::{random_unit_scaled, circle_point};

/// A body no smaller than this splits into two children; below it, a hit
/// destroys it outright.
pub const MIN_SPLIT_SIZE: i64 = 2000;

/// The star's base size.
pub const SUN_SIZE: i64 = 500_000;

/// A star at or below this size absorbs a hit without splitting
/// (`SUN_SIZE / 8`, with a tenth of a unit of slack).
pub const SUN_SPLIT_FLOOR: i64 = 62_600;

/// What a projectile hit leaves behind: the points it scored and the
/// children it spawned, if any.
pub struct FragmentOutcome {
    pub score: u32,
    pub children: Option<(Body, Body)>,
}

/// Two axes spanning the plane perpendicular to `travel`, each of
/// (almost) unit length and almost perpendicular to the other and to the
/// travel direction. The first is the cross product of the travel
/// direction with a helper axis picked away from it, the second crosses
/// the travel direction with the first; both crossings are exact in
/// integers, so only the rounding to unit length perturbs them — by less
/// than a percent of a right angle, as the dot-product bounds state.
pub fn perp_basis(travel: Vec3x) -> (basis: (Vec3x, Vec3x))
    requires
        in_box(travel, 1_000_000_000),
        250_000 <= spec_norm_sq(travel),
    ensures
        990_000 <= spec_norm_sq(basis.0) <= 1_011_000,
        990_000 <= spec_norm_sq(basis.1) <= 1_011_000,
        in_box(basis.0, 1_006),
        in_box(basis.1, 1_006),
        -3018 <= spec_dot(basis.1, basis.0) <= 3018,
        -3018 <= spec_dot(basis.0, basis.1) <= 3018,
        -(7 * spec_isqrt(spec_norm_sq(travel))) <= spec_dot(basis.0, travel) <= 7 * spec_isqrt(
            spec_norm_sq(travel),
        ),
        -(7 * spec_isqrt(spec_norm_sq(travel))) <= spec_dot(basis.1, travel) <= 7 * spec_isqrt(
            spec_norm_sq(travel),
        ),
{
    let ghost dt = spec_isqrt(spec_norm_sq(travel));
    proof {
        crate::fxvec::lemma_isqrt_props(spec_norm_sq(travel));
        assert(dt >= 500) by (nonlinear_arith)
            requires
                dt >= 0,
                spec_norm_sq(travel) >= 250_000,
                spec_norm_sq(travel) < (dt + 1) * (dt + 1),
        ;
    }
    let fw = normalize_milli(travel);
    let helper = if -900 < fw.z && fw.z < 900 {
        Vec3x { x: 0, y: 0, z: 1000 }
    } else {
        Vec3x { x: 0, y: 1000, z: 0 }
    };
    let u0 = fw.cross(helper);
    proof {
        lemma_cross_box(fw, helper, u0, 1_006, 1000);
        crate::fxvec::lemma_lagrange_cross(
            fw.x as int,
            fw.y as int,
            fw.z as int,
            helper.x as int,
            helper.y as int,
            helper.z as int,
        );
        assert(spec_norm_sq(u0) == spec_norm_sq(fw) * spec_norm_sq(helper) - spec_dot(fw, helper)
            * spec_dot(fw, helper));
        assert(spec_norm_sq(helper) == 1_000_000);
        assert(spec_norm_sq(fw) * 1_000_000 >= 990_000_000_000) by (nonlinear_arith)
            requires
                spec_norm_sq(fw) >= 990_000,
        ;
        if -900 < fw.z && fw.z < 900 {
            assert(fw.x * helper.x == 0 && fw.y * helper.y == 0 && fw.z * helper.z == fw.z * 1000)
                by (nonlinear_arith)
                requires
                    helper.x == 0,
                    helper.y == 0,
                    helper.z == 1000,
            ;
            assert(spec_dot(fw, helper) == fw.z * 1000);
            assert((fw.z * 1000) * (fw.z * 1000) <= 808_201_000_000) by (nonlinear_arith)
                requires
                    -899 <= fw.z <= 899,
            ;
        } else {
            assert(fw.x * helper.x == 0 && fw.z * helper.z == 0 && fw.y * helper.y == fw.y * 1000)
                by (nonlinear_arith)
                requires
                    helper.x == 0,
                    helper.z == 0,
                    helper.y == 1000,
            ;
            assert(spec_dot(fw, helper) == fw.y * 1000);
            assert(fw.z * fw.z >= 810_000) by (nonlinear_arith)
                requires
                    fw.z <= -900 || fw.z >= 900,
            ;
            assert(fw.x * fw.x >= 0 && fw.y * fw.y >= 0) by (nonlinear_arith);
            assert(fw.y * fw.y <= 201_000);
            assert((fw.y * 1000) * (fw.y * 1000) <= 201_000_000_000) by (nonlinear_arith)
                requires
                    0 <= fw.y * fw.y <= 201_000,
            ;
        }
        assert(spec_norm_sq(u0) >= 250_000);
    }
    let u = normalize_milli(u0);
    let ghost du = spec_isqrt(spec_norm_sq(u0));
    proof {
        crate::fxvec::lemma_isqrt_props(spec_norm_sq(u0));
        assert(du >= 1) by (nonlinear_arith)
            requires
                du >= 0,
                spec_norm_sq(u0) >= 250_000,
                spec_norm_sq(u0) < (du + 1) * (du + 1),
        ;
        crate::fxvec::lemma_normalized_dot(u0, u, fw, du);
        assert(-3018 <= spec_dot(u, fw) <= 3018);
        crate::fxvec::lemma_dot_chain(travel, fw, u, dt);
    }
    let v0 = fw.cross(u);
    proof {
        lemma_cross_box(fw, u, v0, 1_006, 1_006);
        crate::fxvec::lemma_lagrange_cross(
            fw.x as int,
            fw.y as int,
            fw.z as int,
            u.x as int,
            u.y as int,
            u.z as int,
        );
        assert(spec_norm_sq(v0) == spec_norm_sq(fw) * spec_norm_sq(u) - spec_dot(fw, u) * spec_dot(
            fw,
            u,
        ));
        assert(spec_norm_sq(fw) * spec_norm_sq(u) >= 980_100_000_000) by (nonlinear_arith)
            requires
                spec_norm_sq(fw) >= 990_000,
                spec_norm_sq(u) >= 990_000,
        ;
        assert(spec_dot(fw, u) * spec_dot(fw, u) <= 3018 * 3018) by (nonlinear_arith)
            requires
                -3018 <= spec_dot(fw, u) <= 3018,
        ;
        assert(spec_norm_sq(v0) >= 250_000);
    }
    let v = normalize_milli(v0);
    let ghost dv = spec_isqrt(spec_norm_sq(v0));
    proof {
        crate::fxvec::lemma_isqrt_props(spec_norm_sq(v0));
        assert(dv >= 1) by (nonlinear_arith)
            requires
                dv >= 0,
                spec_norm_sq(v0) >= 250_000,
                spec_norm_sq(v0) < (dv + 1) * (dv + 1),
        ;
        crate::fxvec::lemma_normalized_dot(v0, v, u, dv);
        crate::fxvec::lemma_normalized_dot(v0, v, fw, dv);
        assert(-3018 <= spec_dot(v, fw) <= 3018);
        crate::fxvec::lemma_dot_chain(travel, fw, v, dt);
        assert(spec_dot(u, v) == spec_dot(v, u)) by (nonlinear_arith);
    }
    (u, v)
}

/// The cross product of two boxed vectors stays in the doubled product
/// box.
proof fn lemma_cross_box(a: Vec3x, b: Vec3x, r: Vec3x, ka: int, kb: int)
    requires
        in_box(a, ka),
        in_box(b, kb),
        0 <= ka,
        0 <= kb,
        r.x == a.y * b.z - a.z * b.y,
        r.y == a.z * b.x - a.x * b.z,
        r.z == a.x * b.y - a.y * b.x,
    ensures
        in_box(r, 2 * (ka * kb)),
{
    crate::fxvec::lemma_mul_abs_bound2(a.x as int, b.y as int, ka, kb);
    crate::fxvec::lemma_mul_abs_bound2(a.x as int, b.z as int, ka, kb);
    crate::fxvec::lemma_mul_abs_bound2(a.y as int, b.x as int, ka, kb);
    crate::fxvec::lemma_mul_abs_bound2(a.y as int, b.z as int, ka, kb);
    crate::fxvec::lemma_mul_abs_bound2(a.z as int, b.x as int, ka, kb);
    crate::fxvec::lemma_mul_abs_bound2(a.z as int, b.y as int, ka, kb);
}

/// Mixes the two basis axes by a point of the unit circle: the split axis
/// `u * cos + v * sin`. For near-unit, near-orthogonal axes and a point
/// near the circle, the mix is itself near unit length.
pub fn mix_axes(u: Vec3x, v: Vec3x, c: i64, s: i64) -> (dir: Vec3x)
    requires
        in_box(u, 1_006),
        in_box(v, 1_006),
        990_000 <= spec_norm_sq(u) <= 1_011_000,
        990_000 <= spec_norm_sq(v) <= 1_011_000,
        -3018 <= spec_dot(u, v) <= 3018,
        -1000 <= c <= 1000,
        -1000 <= s <= 1000,
        997_999 <= c * c + s * s <= 1_000_000,
    ensures
        dir.x == tdiv(u.x * c, 1000) + tdiv(v.x * s, 1000),
        dir.y == tdiv(u.y * c, 1000) + tdiv(v.y * s, 1000),
        dir.z == tdiv(u.z * c, 1000) + tdiv(v.z * s, 1000),
        in_box(dir, 2_100),
        960_000 <= spec_norm_sq(dir) <= 1_040_000,
{
    proof {
        crate::fxvec::lemma_mul_abs_bound2(u.x as int, c as int, 1_006, 1000);
        crate::fxvec::lemma_mul_abs_bound2(u.y as int, c as int, 1_006, 1000);
        crate::fxvec::lemma_mul_abs_bound2(u.z as int, c as int, 1_006, 1000);
        crate::fxvec::lemma_mul_abs_bound2(v.x as int, s as int, 1_006, 1000);
        crate::fxvec::lemma_mul_abs_bound2(v.y as int, s as int, 1_006, 1000);
        crate::fxvec::lemma_mul_abs_bound2(v.z as int, s as int, 1_006, 1000);
        crate::fxvec::lemma_tdiv_le(u.x * c, 1000, 1_006);
        crate::fxvec::lemma_tdiv_le(u.y * c, 1000, 1_006);
        crate::fxvec::lemma_tdiv_le(u.z * c, 1000, 1_006);
        crate::fxvec::lemma_tdiv_le(v.x * s, 1000, 1_006);
        crate::fxvec::lemma_tdiv_le(v.y * s, 1000, 1_006);
        crate::fxvec::lemma_tdiv_le(v.z * s, 1000, 1_006);
    }
    let uc = u.scale_ratio(c, 1000);
    let vs = v.scale_ratio(s, 1000);
    let dir = uc.plus(vs);
    proof {
        lemma_mix_norm(u, v, c as int, s as int, dir);
    }
    dir
}

/// The square of a two-axis mix component, expanded.
proof fn lemma_mix_sq_expand(a: int, b: int, c: int, s: int)
    ensures
        (a * c + b * s) * (a * c + b * s) == (c * c) * (a * a) + 2 * ((c * s) * (a * b)) + (s * s)
            * (b * b),
{
    let p = a * c;
    let q = b * s;
    assert((p + q) * (p + q) == p * p + 2 * (p * q) + q * q) by (nonlinear_arith);
    assert(p * p == (c * c) * (a * a)) by (nonlinear_arith)
        requires
            p == a * c,
    ;
    assert(p * q == (c * s) * (a * b)) by (nonlinear_arith)
        requires
            p == a * c,
            q == b * s,
    ;
    assert(q * q == (s * s) * (b * b)) by (nonlinear_arith)
        requires
            q == b * s,
    ;
}

/// The squared length of the rounded axis mix `u * c/1000 + v * s/1000`
/// stays within four percent of one squared unit: the exact mix has
/// squared length `c^2 |u|^2 + 2 c s (u . v) + s^2 |v|^2` over a
/// million, and each component rounds by less than two ticks.
proof fn lemma_mix_norm(u: Vec3x, v: Vec3x, c: int, s: int, dir: Vec3x)
    requires
        in_box(u, 1_006),
        in_box(v, 1_006),
        990_000 <= spec_norm_sq(u) <= 1_011_000,
        990_000 <= spec_norm_sq(v) <= 1_011_000,
        -3018 <= spec_dot(u, v) <= 3018,
        -1000 <= c <= 1000,
        -1000 <= s <= 1000,
        997_999 <= c * c + s * s <= 1_000_000,
        dir.x == tdiv(u.x * c, 1000) + tdiv(v.x * s, 1000),
        dir.y == tdiv(u.y * c, 1000) + tdiv(v.y * s, 1000),
        dir.z == tdiv(u.z * c, 1000) + tdiv(v.z * s, 1000),
    ensures
        960_000 <= spec_norm_sq(dir) <= 1_040_000,
{
    let ex = u.x * c + v.x * s;
    let ey = u.y * c + v.y * s;
    let ez = u.z * c + v.z * s;
    // rounding: a thousand times each mix component is within two
    // thousand of the exact mix
    crate::fxvec::lemma_tdiv(u.x * c, 1000);
    crate::fxvec::lemma_tdiv(u.y * c, 1000);
    crate::fxvec::lemma_tdiv(u.z * c, 1000);
    crate::fxvec::lemma_tdiv(v.x * s, 1000);
    crate::fxvec::lemma_tdiv(v.y * s, 1000);
    crate::fxvec::lemma_tdiv(v.z * s, 1000);
    assert(-2000 < 1000 * dir.x - ex < 2000 && -2000 < 1000 * dir.y - ey < 2000 && -2000 < 1000
        * dir.z - ez < 2000);
    // the exact mix squared, expanded over the axis norms and their dot
    lemma_mix_sq_expand(u.x as int, v.x as int, c, s);
    lemma_mix_sq_expand(u.y as int, v.y as int, c, s);
    lemma_mix_sq_expand(u.z as int, v.z as int, c, s);
    assert(ex * ex == (c * c) * (u.x * u.x) + 2 * ((c * s) * (u.x * v.x)) + (s * s) * (v.x * v.x));
    assert(ey * ey == (c * c) * (u.y * u.y) + 2 * ((c * s) * (u.y * v.y)) + (s * s) * (v.y * v.y));
    assert(ez * ez == (c * c) * (u.z * u.z) + 2 * ((c * s) * (u.z * v.z)) + (s * s) * (v.z * v.z));
    let nu = u.x * u.x + u.y * u.y + u.z * u.z;
    let nv = v.x * v.x + v.y * v.y + v.z * v.z;
    let duv = u.x * v.x + u.y * v.y + u.z * v.z;
    assert((c * c) * (u.x * u.x) + (c * c) * (u.y * u.y) + (c * c) * (u.z * u.z) == (c * c) * nu)
        by (nonlinear_arith)
        requires
            nu == u.x * u.x + u.y * u.y + u.z * u.z,
    ;
    assert((s * s) * (v.x * v.x) + (s * s) * (v.y * v.y) + (s * s) * (v.z * v.z) == (s * s) * nv)
        by (nonlinear_arith)
        requires
            nv == v.x * v.x + v.y * v.y + v.z * v.z,
    ;
    assert(2 * ((c * s) * (u.x * v.x)) + 2 * ((c * s) * (u.y * v.y)) + 2 * ((c * s) * (u.z * v.z))
        == 2 * ((c * s) * duv)) by (nonlinear_arith)
        requires
            duv == u.x * v.x + u.y * v.y + u.z * v.z,
    ;
    let se = ex * ex + ey * ey + ez * ez;
    assert(se == (c * c) * nu + (s * s) * nv + 2 * ((c * s) * duv));
    // bound each part of the exact mix squared
    let cs2 = c * c + s * s;
    assert(c * c >= 0 && s * s >= 0) by (nonlinear_arith);
    assert((c * c) * 990_000 <= (c * c) * nu <= (c * c) * 1_011_000 && (s * s) * 990_000 <= (s * s)
        * nv <= (s * s) * 1_011_000) by (nonlinear_arith)
        requires
            990_000 <= nu <= 1_011_000,
            990_000 <= nv <= 1_011_000,
            c * c >= 0,
            s * s >= 0,
    ;
    assert((c * c) * 990_000 + (s * s) * 990_000 == cs2 * 990_000 && (c * c) * 1_011_000 + (s * s)
        * 1_011_000 == cs2 * 1_011_000) by (nonlinear_arith)
        requires
            cs2 == c * c + s * s,
    ;
    assert(-cs2 <= 2 * (c * s) <= cs2) by (nonlinear_arith)
        requires
            cs2 == c * c + s * s,
    ;
    assert(-(cs2 * 3018) <= 2 * ((c * s) * duv) <= cs2 * 3018) by (nonlinear_arith)
        requires
            -cs2 <= 2 * (c * s) <= cs2,
            -3018 <= duv <= 3018,
            cs2 >= 0,
    ;
    assert(cs2 * 990_000 >= 997_999 * 990_000 && cs2 * 1_011_000 <= 1_000_000 * 1_011_000 && cs2
        * 3018 <= 1_000_000 * 3018) by (nonlinear_arith)
        requires
            997_999 <= cs2 <= 1_000_000,
    ;
    assert(984_901_992_000 <= se <= 1_014_018_000_000);
    // fold the rounding into the squared length
    crate::fxvec::lemma_mul_abs_bound2(u.x as int, c, 1_006, 1000);
    crate::fxvec::lemma_mul_abs_bound2(u.y as int, c, 1_006, 1000);
    crate::fxvec::lemma_mul_abs_bound2(u.z as int, c, 1_006, 1000);
    crate::fxvec::lemma_mul_abs_bound2(v.x as int, s, 1_006, 1000);
    crate::fxvec::lemma_mul_abs_bound2(v.y as int, s, 1_006, 1000);
    crate::fxvec::lemma_mul_abs_bound2(v.z as int, s, 1_006, 1000);
    assert(-2_012_000 <= ex <= 2_012_000 && -2_012_000 <= ey <= 2_012_000 && -2_012_000 <= ez
        <= 2_012_000);
    crate::fxvec::lemma_sq_lower_by(1000 * dir.x, ex, 2_012_000, 2000);
    crate::fxvec::lemma_sq_lower_by(1000 * dir.y, ey, 2_012_000, 2000);
    crate::fxvec::lemma_sq_lower_by(1000 * dir.z, ez, 2_012_000, 2000);
    crate::fxvec::lemma_sq_upper(1000 * dir.x, ex, 2_012_000, 2000);
    crate::fxvec::lemma_sq_upper(1000 * dir.y, ey, 2_012_000, 2000);
    crate::fxvec::lemma_sq_upper(1000 * dir.z, ez, 2_012_000, 2000);
    let big = (1000 * dir.x) * (1000 * dir.x) + (1000 * dir.y) * (1000 * dir.y) + (1000 * dir.z) * (
    1000 * dir.z);
    assert(se - 24_144_000_000 - 12_000_000 <= big <= se + 24_144_000_000 + 12_000_000);
    assert((1000 * dir.x) * (1000 * dir.x) == 1_000_000 * (dir.x * dir.x) && (1000 * dir.y) * (1000
        * dir.y) == 1_000_000 * (dir.y * dir.y) && (1000 * dir.z) * (1000 * dir.z) == 1_000_000 * (
    dir.z * dir.z)) by (nonlinear_arith);
    let nd = dir.x * dir.x + dir.y * dir.y + dir.z * dir.z;
    assert(1_000_000 * (dir.x * dir.x) + 1_000_000 * (dir.y * dir.y) + 1_000_000 * (dir.z * dir.z)
        == 1_000_000 * nd) by (nonlinear_arith)
        requires
            nd == dir.x * dir.x + dir.y * dir.y + dir.z * dir.z,
    ;
    assert(1_000_000 * 960_000 <= 1_000_000 * nd <= 1_000_000 * 1_040_000);
    assert(960_000 <= nd <= 1_040_000) by (nonlinear_arith)
        requires
            1_000_000 * 960_000 <= 1_000_000 * nd <= 1_000_000 * 1_040_000,
    ;
}

/// The spin magnitude of a split child: three tenths of its law speed.
pub open spec fn spec_child_spin_scale(size: int) -> int {
    3 * spec_speed_of_size(size) / 10
}

/// Deterministic core of a projectile hit on an asteroid, the split axis
/// and spin axis already drawn. Scores the struck asteroid by its size
/// class. An asteroid below the minimum split size leaves no children;
/// otherwise exactly two children of half its size appear beside it, with
/// exactly opposite velocities of the law speed for the new size, and
/// exactly opposite spins.
pub fn fragment_asteroid(ast: &Body, dir: Vec3x, spin_dir: Vec3x) -> (out: FragmentOutcome)
    requires
        wf_body_state(*ast),
        ast.size <= MAX_CLASS_SIZE,
        in_box(dir, 2_100),
        in_box(spin_dir, 1_006),
    ensures
        out.score == spec_score_of_class(spec_class_of_size(ast.size as int)),
        ast.size < MIN_SPLIT_SIZE ==> out.children is None,
        ast.size >= MIN_SPLIT_SIZE ==> (out.children matches Some(pair) && {
            let half = ast.size as int / 2;
            let spd = spec_speed_of_size(half);
            let spin_scale = spec_child_spin_scale(half);
            &&& pair.0.size == half
            &&& pair.1.size == half
            &&& pair.0.vel.x == tdiv(dir.x * spd, 1000)
            &&& pair.0.vel.y == tdiv(dir.y * spd, 1000)
            &&& pair.0.vel.z == tdiv(dir.z * spd, 1000)
            &&& pair.1.vel.x == -pair.0.vel.x
            &&& pair.1.vel.y == -pair.0.vel.y
            &&& pair.1.vel.z == -pair.0.vel.z
            &&& pair.0.spin.x == tdiv(spin_dir.x * spin_scale, 1000)
            &&& pair.0.spin.y == tdiv(spin_dir.y * spin_scale, 1000)
            &&& pair.0.spin.z == tdiv(spin_dir.z * spin_scale, 1000)
            &&& pair.1.spin.x == -pair.0.spin.x
            &&& pair.1.spin.y == -pair.0.spin.y
            &&& pair.1.spin.z == -pair.0.spin.z
            &&& pair.0.pos.x == ast.pos.x + tdiv(pair.0.vel.x as int, 10)
            &&& pair.0.pos.y == ast.pos.y + tdiv(pair.0.vel.y as int, 10)
            &&& pair.0.pos.z == ast.pos.z + tdiv(pair.0.vel.z as int, 10)
            &&& pair.1.pos.x == ast.pos.x + tdiv(pair.1.vel.x as int, 10)
            &&& pair.1.pos.y == ast.pos.y + tdiv(pair.1.vel.y as int, 10)
            &&& pair.1.pos.z == ast.pos.z + tdiv(pair.1.vel.z as int, 10)
            &&& pair.0.orient == (Vec3x { x: 0, y: 0, z: 0 })
            &&& pair.1.orient == (Vec3x { x: 0, y: 0, z: 0 })
            &&& in_box(pair.0.vel, 12_700)
            &&& in_box(pair.1.vel, 12_700)
            &&& in_box(pair.0.spin, 1_900)
            &&& in_box(pair.1.spin, 1_900)
            &&& in_box(pair.0.pos, MAX_POS + 1_300)
            &&& in_box(pair.1.pos, MAX_POS + 1_300)
            &&& 0 < pair.0.size <= MAX_RADIUS
        }),
{
    let cls = class_of_size(ast.size);
    let score = score_of_class(cls);
    if ast.size < MIN_SPLIT_SIZE {
        return FragmentOutcome { score, children: None };
    }
    let half = ast.size / 2;
    let spd = speed_of_size(half);
    let spin_scale = 3 * spd / 10;
    proof {
        lemma_scale_bounds(dir, spd as int, 2_100, 6000, 12_700);
        lemma_scale_bounds(spin_dir, spin_scale as int, 1_006, 1800, 1_900);
    }
    let vel1 = dir.scale_ratio(spd, 1000);
    let vel2 = vel1.neg();
    let spin1 = spin_dir.scale_ratio(spin_scale, 1000);
    let spin2 = spin1.neg();
    proof {
        crate::fxvec::lemma_tdiv_le(vel1.x as int, 10, 1_270);
        crate::fxvec::lemma_tdiv_le(vel1.y as int, 10, 1_270);
        crate::fxvec::lemma_tdiv_le(vel1.z as int, 10, 1_270);
        crate::fxvec::lemma_tdiv_le(vel2.x as int, 10, 1_270);
        crate::fxvec::lemma_tdiv_le(vel2.y as int, 10, 1_270);
        crate::fxvec::lemma_tdiv_le(vel2.z as int, 10, 1_270);
    }
    let off1 = vel1.scale_ratio(1, 10);
    let off2 = vel2.scale_ratio(1, 10);
    let zero = Vec3x { x: 0, y: 0, z: 0 };
    let child1 = Body {
        pos: ast.pos.plus(off1),
        vel: vel1,
        spin: spin1,
        orient: zero,
        size: half,
    };
    let child2 = Body {
        pos: ast.pos.plus(off2),
        vel: vel2,
        spin: spin2,
        orient: zero,
        size: half,
    };
    FragmentOutcome { score, children: Some((child1, child2)) }
}

/// Scaling a boxed vector by a bounded factor of a thousandth keeps it in
/// a box of the scaled size.
pub proof fn lemma_scale_bounds(v: Vec3x, k: int, vb: int, kb: int, out: int)
    requires
        in_box(v, vb),
        0 <= k <= kb,
        0 <= vb,
        0 <= kb,
        vb * kb <= out * 1000,
        0 <= out,
    ensures
        -out <= tdiv(v.x * k, 1000) <= out,
        -out <= tdiv(v.y * k, 1000) <= out,
        -out <= tdiv(v.z * k, 1000) <= out,
{
    crate::fxvec::lemma_mul_abs_bound2(v.x as int, k, vb, kb);
    crate::fxvec::lemma_mul_abs_bound2(v.y as int, k, vb, kb);
    crate::fxvec::lemma_mul_abs_bound2(v.z as int, k, vb, kb);
    crate::fxvec::lemma_tdiv_le(v.x * k, 1000, out);
    crate::fxvec::lemma_tdiv_le(v.y * k, 1000, out);
    crate::fxvec::lemma_tdiv_le(v.z * k, 1000, out);
}

/// A projectile hit on an asteroid with the randomness drawn here: the
/// split axis is a random direction in the plane perpendicular to the
/// projectile's travel, the spin axis an independent random direction.
/// Everything the contract of `fragment_asteroid` states holds of every
/// draw.
pub fn fragment_asteroid_random(ast: &Body, travel: Vec3x) -> (out: FragmentOutcome)
    requires
        wf_body_state(*ast),
        ast.size <= MAX_CLASS_SIZE,
        in_box(travel, 1_000_000_000),
        250_000 <= spec_norm_sq(travel),
    ensures
        out.score == spec_score_of_class(spec_class_of_size(ast.size as int)),
        ast.size < MIN_SPLIT_SIZE ==> out.children is None,
        ast.size >= MIN_SPLIT_SIZE ==> (out.children matches Some(pair) && {
            &&& pair.0.size == ast.size as int / 2
            &&& pair.1.size == ast.size as int / 2
            &&& pair.1.vel.x == -pair.0.vel.x
            &&& pair.1.vel.y == -pair.0.vel.y
            &&& pair.1.vel.z == -pair.0.vel.z
            &&& pair.1.spin.x == -pair.0.spin.x
            &&& pair.1.spin.y == -pair.0.spin.y
            &&& pair.1.spin.z == -pair.0.spin.z
            &&& in_box(pair.0.vel, 12_700)
            &&& in_box(pair.1.vel, 12_700)
            &&& in_box(pair.0.pos, MAX_POS + 1_300)
            &&& in_box(pair.1.pos, MAX_POS + 1_300)
        }),
{
    let (u, v) = perp_basis(travel);
    let (c, s) = circle_point();
    let dir = mix_axes(u, v, c, s);
    let spin_dir = random_unit_scaled();
    fragment_asteroid(ast, dir, spin_dir)
}

/// A mix of two axes nearly perpendicular to `t` is itself nearly
/// perpendicular to `t`.
proof fn lemma_mix_dot_travel(u: Vec3x, v: Vec3x, c: int, s: int, dir: Vec3x, t: Vec3x, dt: int)
    requires
        dir.x == tdiv(u.x * c, 1000) + tdiv(v.x * s, 1000),
        dir.y == tdiv(u.y * c, 1000) + tdiv(v.y * s, 1000),
        dir.z == tdiv(u.z * c, 1000) + tdiv(v.z * s, 1000),
        -1000 <= c <= 1000,
        -1000 <= s <= 1000,
        dt >= 500,
        -(7 * dt) <= spec_dot(u, t) <= 7 * dt,
        -(7 * dt) <= spec_dot(v, t) <= 7 * dt,
        spec_norm_sq(t) < (dt + 1) * (dt + 1),
    ensures
        -(19 * dt) <= spec_dot(dir, t) <= 19 * dt,
{
    crate::fxvec::lemma_tdiv(u.x * c, 1000);
    crate::fxvec::lemma_tdiv(u.y * c, 1000);
    crate::fxvec::lemma_tdiv(u.z * c, 1000);
    crate::fxvec::lemma_tdiv(v.x * s, 1000);
    crate::fxvec::lemma_tdiv(v.y * s, 1000);
    crate::fxvec::lemma_tdiv(v.z * s, 1000);
    let rx = u.x * c + v.x * s - 1000 * dir.x;
    let ry = u.y * c + v.y * s - 1000 * dir.y;
    let rz = u.z * c + v.z * s - 1000 * dir.z;
    assert(-2000 < rx < 2000 && -2000 < ry < 2000 && -2000 < rz < 2000);
    assert(1000 * (dir.x * t.x) == c * (u.x * t.x) + s * (v.x * t.x) - rx * t.x)
        by (nonlinear_arith)
        requires
            1000 * dir.x == u.x * c + v.x * s - rx,
    ;
    assert(1000 * (dir.y * t.y) == c * (u.y * t.y) + s * (v.y * t.y) - ry * t.y)
        by (nonlinear_arith)
        requires
            1000 * dir.y == u.y * c + v.y * s - ry,
    ;
    assert(1000 * (dir.z * t.z) == c * (u.z * t.z) + s * (v.z * t.z) - rz * t.z)
        by (nonlinear_arith)
        requires
            1000 * dir.z == u.z * c + v.z * s - rz,
    ;
    let dut = u.x * t.x + u.y * t.y + u.z * t.z;
    let dvt = v.x * t.x + v.y * t.y + v.z * t.z;
    assert(c * (u.x * t.x) + c * (u.y * t.y) + c * (u.z * t.z) == c * dut) by (nonlinear_arith)
        requires
            dut == u.x * t.x + u.y * t.y + u.z * t.z,
    ;
    assert(s * (v.x * t.x) + s * (v.y * t.y) + s * (v.z * t.z) == s * dvt) by (nonlinear_arith)
        requires
            dvt == v.x * t.x + v.y * t.y + v.z * t.z,
    ;
    let dd = dir.x * t.x + dir.y * t.y + dir.z * t.z;
    assert(1000 * (dir.x * t.x) + 1000 * (dir.y * t.y) + 1000 * (dir.z * t.z) == 1000 * dd)
        by (nonlinear_arith)
        requires
            dd == dir.x * t.x + dir.y * t.y + dir.z * t.z,
    ;
    assert(-(7000 * dt) <= c * dut <= 7000 * dt && -(7000 * dt) <= s * dvt <= 7000 * dt)
        by (nonlinear_arith)
        requires
            -1000 <= c <= 1000,
            -1000 <= s <= 1000,
            -(7 * dt) <= dut <= 7 * dt,
            -(7 * dt) <= dvt <= 7 * dt,
            dt >= 0,
    ;
    crate::fxvec::lemma_sum_abs_le(t.x as int, t.y as int, t.z as int, dt);
    crate::fxvec::lemma_mul_abs_factor(rx, t.x as int, 2000);
    crate::fxvec::lemma_mul_abs_factor(ry, t.y as int, 2000);
    crate::fxvec::lemma_mul_abs_factor(rz, t.z as int, 2000);
    assert(2000 * crate::fxvec::abs_i(t.x as int) + 2000 * crate::fxvec::abs_i(t.y as int) + 2000
        * crate::fxvec::abs_i(t.z as int) <= 2000 * (2 * dt + 1)) by (nonlinear_arith)
        requires
            crate::fxvec::abs_i(t.x as int) + crate::fxvec::abs_i(t.y as int)
                + crate::fxvec::abs_i(t.z as int) <= 2 * dt + 1,
    ;
    assert(-(19000 * dt) <= 1000 * dd <= 19000 * dt);
    assert(-(19 * dt) <= dd <= 19 * dt) by (nonlinear_arith)
        requires
            -(19000 * dt) <= 1000 * dd <= 19000 * dt,
    ;
}

/// Draws a random split axis perpendicular to the travel direction: the
/// perpendicular basis mixed by a random point of the unit circle. The
/// axis is always near unit length; when the travel direction is not
/// degenerate the axis is nearly perpendicular to it. A degenerate travel
/// direction falls back to the coordinate axes.
pub fn random_split_axis(travel: Vec3x) -> (dir: Vec3x)
    requires
        in_box(travel, 1_000_000_000),
    ensures
        in_box(dir, 2_100),
        960_000 <= spec_norm_sq(dir) <= 1_040_000,
        spec_norm_sq(travel) >= 250_000 ==> -(19 * spec_isqrt(spec_norm_sq(travel))) <= spec_dot(
            dir,
            travel,
        ) <= 19 * spec_isqrt(spec_norm_sq(travel)),
{
    proof {
        crate::fxvec::lemma_mul_abs_bound(travel.x as int, travel.x as int, 1_000_000_000);
        crate::fxvec::lemma_mul_abs_bound(travel.y as int, travel.y as int, 1_000_000_000);
        crate::fxvec::lemma_mul_abs_bound(travel.z as int, travel.z as int, 1_000_000_000);
    }
    let n2 = travel.norm_sq128();
    let (u, v) = if n2 >= 250_000 {
        perp_basis(travel)
    } else {
        let fb_x = Vec3x { x: 1000, y: 0, z: 0 };
        let fb_y = Vec3x { x: 0, y: 1000, z: 0 };
        proof {
            assert(spec_norm_sq(fb_x) == 1000 * 1000 + 0 * 0 + 0 * 0);
            assert(spec_norm_sq(fb_y) == 0 * 0 + 1000 * 1000 + 0 * 0);
            assert(spec_dot(fb_x, fb_y) == 1000 * 0 + 0 * 1000 + 0 * 0);
        }
        (fb_x, fb_y)
    };
    let (c, s) = circle_point();
    let dir = mix_axes(u, v, c, s);
    proof {
        if spec_norm_sq(travel) >= 250_000 {
            let dt = spec_isqrt(spec_norm_sq(travel));
            crate::fxvec::lemma_isqrt_props(spec_norm_sq(travel));
            assert(dt >= 500) by (nonlinear_arith)
                requires
                    dt >= 0,
                    spec_norm_sq(travel) >= 250_000,
                    spec_norm_sq(travel) < (dt + 1) * (dt + 1),
            ;
            lemma_mix_dot_travel(u, v, c as int, s as int, dir, travel, dt);
        }
    }
    dir
}

/// A hit on the star: above its split floor the star divides like an
/// asteroid, into two half-size children sent apart along a random axis
/// perpendicular to the line from the player; at or below the floor it
/// absorbs the hit. Children sit one half-size along the axis on either
/// side and move with the law speed for their new size.
pub fn fragment_sun(sun: &Body, dir: Vec3x) -> (out: Option<(Body, Body)>)
    requires
        wf_body_state(*sun),
        in_box(dir, 2_100),
    ensures
        sun.size <= SUN_SPLIT_FLOOR ==> out is None,
        sun.size > SUN_SPLIT_FLOOR ==> (out matches Some(pair) && {
            let half = sun.size as int / 2;
            let spd = spec_speed_of_size(half);
            &&& pair.0.size == half
            &&& pair.1.size == half
            &&& pair.0.vel.x == tdiv(dir.x * spd, 1000)
            &&& pair.0.vel.y == tdiv(dir.y * spd, 1000)
            &&& pair.0.vel.z == tdiv(dir.z * spd, 1000)
            &&& pair.1.vel.x == -pair.0.vel.x
            &&& pair.1.vel.y == -pair.0.vel.y
            &&& pair.1.vel.z == -pair.0.vel.z
            &&& pair.0.pos.x == sun.pos.x + tdiv(dir.x * half, 1000)
            &&& pair.0.pos.y == sun.pos.y + tdiv(dir.y * half, 1000)
            &&& pair.0.pos.z == sun.pos.z + tdiv(dir.z * half, 1000)
            &&& pair.1.pos.x == sun.pos.x - tdiv(dir.x * half, 1000)
            &&& pair.1.pos.y == sun.pos.y - tdiv(dir.y * half, 1000)
            &&& pair.1.pos.z == sun.pos.z - tdiv(dir.z * half, 1000)
            &&& pair.0.spin == (Vec3x { x: 0, y: 0, z: 0 })
            &&& pair.1.spin == (Vec3x { x: 0, y: 0, z: 0 })
            &&& pair.0.orient == (Vec3x { x: 0, y: 0, z: 0 })
            &&& pair.1.orient == (Vec3x { x: 0, y: 0, z: 0 })
            &&& in_box(pair.0.vel, 12_700)
            &&& in_box(pair.1.vel, 12_700)
            &&& in_box(pair.0.pos, MAX_POS + 540_000)
            &&& in_box(pair.1.pos, MAX_POS + 540_000)
            &&& 0 < pair.0.size <= MAX_RADIUS
        }),
{
    if sun.size <= SUN_SPLIT_FLOOR {
        return None;
    }
    let half = sun.size / 2;
    let spd = speed_of_size(half);
    proof {
        lemma_scale_bounds(dir, spd as int, 2_100, 6000, 12_700);
        lemma_scale_bounds(dir, half as int, 2_100, 256_000, 540_000);
    }
    let vel1 = dir.scale_ratio(spd, 1000);
    let vel2 = vel1.neg();
    let off = dir.scale_ratio(half, 1000);
    let zero = Vec3x { x: 0, y: 0, z: 0 };
    let child1 = Body { pos: sun.pos.plus(off), vel: vel1, spin: zero, orient: zero, size: half };
    let child2 = Body {
        pos: sun.pos.minus(off),
        vel: vel2,
        spin: zero,
        orient: zero,
        size: half,
    };
    Some((child1, child2))
}

} // verus!
