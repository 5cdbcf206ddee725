//! Simulated bodies and the per-tick motion integrator.
//!
//! A body is a sphere with a position, a linear velocity, an angular
//! velocity and a size; its mass is the cube of its size (uniform density).
//! Orientation is carried as three accumulated Euler angles in
//! milli-radians, each kept inside one full turn; at the small per-tick
//! increments the axis order does not matter.

use vstd::prelude::*;

verus! {

use crate::fxvec::{
    Vec3x,
    in_box,
    tdiv,
    div_trunc,
    lemma_tdiv,
    lemma_tdiv_le,
    lemma_mul_abs_bound2,
    MAX_POS,
    MAX_VEL,
    MAX_RADIUS,
    MAX_MASS,
};
use crate::collide::{CollisionBody, wf_body};

/// One full turn in milli-radians.
pub const TAU_MILLI: i64 = 6283;

/// Largest time step one tick may integrate, in milliseconds.
pub const MAX_DT_MS: i64 = 10_000;

/// A mobile sphere of the simulation.
#[derive(Clone, Copy, Debug, PartialEq, Eq, Structural)]
pub struct Body {
    pub pos: Vec3x,
    pub vel: Vec3x,
    pub spin: Vec3x,
    pub orient: Vec3x,
    pub size: i64,
}

/// A body's mass: the cube of its size.
pub open spec fn spec_mass(size: int) -> int {
    size * size * size
}

/// Machine bounds and invariants of a live body.
pub open spec fn wf_body_state(b: Body) -> bool {
    &&& in_box(b.pos, MAX_POS as int)
    &&& in_box(b.vel, MAX_VEL as int)
    &&& in_box(b.spin, MAX_VEL as int)
    &&& 0 <= b.orient.x < TAU_MILLI
    &&& 0 <= b.orient.y < TAU_MILLI
    &&& 0 <= b.orient.z < TAU_MILLI
    &&& 0 < b.size <= MAX_RADIUS
}

/// A cube of a size in range is a mass in range.
pub proof fn lemma_mass_in_range(size: int)
    by (nonlinear_arith)
    requires
        0 < size <= MAX_RADIUS,
    ensures
        1 <= spec_mass(size) <= MAX_MASS,
{
}

/// The mass derived from a body size, as `size^3`.
pub fn mass_of_size(size: i64) -> (m: i64)
    requires
        0 < size <= MAX_RADIUS,
    ensures
        m == spec_mass(size as int),
        1 <= m <= MAX_MASS,
{
    proof {
        lemma_mass_in_range(size as int);
        lemma_mul_abs_bound2(size as int, size as int, MAX_RADIUS as int, MAX_RADIUS as int);
        lemma_mul_abs_bound2(
            (size as int) * (size as int),
            size as int,
            262_144_000_000,
            MAX_RADIUS as int,
        );
    }
    let m2: i128 = (size as i128) * (size as i128);
    let m3: i128 = m2 * (size as i128);
    m3 as i64
}

/// The resolver's view of a body: same sphere, mass derived from the size.
pub fn to_collision_body(b: &Body) -> (c: CollisionBody)
    requires
        wf_body_state(*b),
    ensures
        c.pos == b.pos,
        c.vel == b.vel,
        c.radius == b.size,
        c.mass == spec_mass(b.size as int),
        wf_body(c),
{
    CollisionBody { pos: b.pos, vel: b.vel, radius: b.size, mass: mass_of_size(b.size) }
}

/// Advances a body's position by one time step: `pos += vel * dt`.
pub fn move_body(b: &mut Body, dt_ms: i64)
    requires
        wf_body_state(*old(b)),
        0 <= dt_ms <= MAX_DT_MS,
    ensures
        final(b).pos.x == old(b).pos.x + tdiv(old(b).vel.x * dt_ms, 1000),
        final(b).pos.y == old(b).pos.y + tdiv(old(b).vel.y * dt_ms, 1000),
        final(b).pos.z == old(b).pos.z + tdiv(old(b).vel.z * dt_ms, 1000),
        final(b).vel == old(b).vel,
        final(b).spin == old(b).spin,
        final(b).orient == old(b).orient,
        final(b).size == old(b).size,
        in_box(final(b).pos, MAX_POS + 10_000_000),
{
    proof {
        lemma_mul_abs_bound2(old(b).vel.x as int, dt_ms as int, MAX_VEL as int, MAX_DT_MS as int);
        lemma_mul_abs_bound2(old(b).vel.y as int, dt_ms as int, MAX_VEL as int, MAX_DT_MS as int);
        lemma_mul_abs_bound2(old(b).vel.z as int, dt_ms as int, MAX_VEL as int, MAX_DT_MS as int);
        lemma_tdiv_le(old(b).vel.x * dt_ms, 1000, 10_000_000);
        lemma_tdiv_le(old(b).vel.y * dt_ms, 1000, 10_000_000);
        lemma_tdiv_le(old(b).vel.z * dt_ms, 1000, 10_000_000);
    }
    let shift = b.vel.scale_ratio(dt_ms, 1000);
    b.pos = b.pos.plus(shift);
}

/// Reduces an accumulated angle into one turn.
fn wrap_angle(x: i64) -> (r: i64)
    requires
        -1_000_000_000 <= x <= 1_000_000_000,
    ensures
        r == (x as int) % (TAU_MILLI as int),
        0 <= r < TAU_MILLI,
{
    proof {
        lemma_tdiv(x as int, TAU_MILLI as int);
        crate::fxvec::lemma_tdiv_abs_le(x as int, TAU_MILLI as int);
    }
    let q = div_trunc(x as i128, TAU_MILLI as i128);
    let r0: i64 = x - (q as i64) * TAU_MILLI;
    let r = if r0 < 0 {
        r0 + TAU_MILLI
    } else {
        r0
    };
    proof {
        let qq: int = if r0 < 0 {
            q as int - 1
        } else {
            q as int
        };
        vstd::arithmetic::div_mod::lemma_fundamental_div_mod_converse(
            x as int,
            TAU_MILLI as int,
            qq,
            r as int,
        );
    }
    r
}

/// Advances a body's orientation by one time step: each Euler angle grows
/// by `spin * dt`, wrapped into one turn.
pub fn rotate_body(b: &mut Body, dt_ms: i64)
    requires
        wf_body_state(*old(b)),
        0 <= dt_ms <= MAX_DT_MS,
    ensures
        final(b).orient.x == (old(b).orient.x + tdiv(old(b).spin.x * dt_ms, 1000)) % (
        TAU_MILLI as int),
        final(b).orient.y == (old(b).orient.y + tdiv(old(b).spin.y * dt_ms, 1000)) % (
        TAU_MILLI as int),
        final(b).orient.z == (old(b).orient.z + tdiv(old(b).spin.z * dt_ms, 1000)) % (
        TAU_MILLI as int),
        final(b).pos == old(b).pos,
        final(b).vel == old(b).vel,
        final(b).spin == old(b).spin,
        final(b).size == old(b).size,
        0 <= final(b).orient.x < TAU_MILLI,
        0 <= final(b).orient.y < TAU_MILLI,
        0 <= final(b).orient.z < TAU_MILLI,
{
    proof {
        lemma_mul_abs_bound2(old(b).spin.x as int, dt_ms as int, MAX_VEL as int, MAX_DT_MS as int);
        lemma_mul_abs_bound2(old(b).spin.y as int, dt_ms as int, MAX_VEL as int, MAX_DT_MS as int);
        lemma_mul_abs_bound2(old(b).spin.z as int, dt_ms as int, MAX_VEL as int, MAX_DT_MS as int);
        lemma_tdiv_le(old(b).spin.x * dt_ms, 1000, 10_000_000);
        lemma_tdiv_le(old(b).spin.y * dt_ms, 1000, 10_000_000);
        lemma_tdiv_le(old(b).spin.z * dt_ms, 1000, 10_000_000);
    }
    let delta = b.spin.scale_ratio(dt_ms, 1000);
    let ox = wrap_angle(b.orient.x + delta.x);
    let oy = wrap_angle(b.orient.y + delta.y);
    let oz = wrap_angle(b.orient.z + delta.z);
    b.orient = Vec3x { x: ox, y: oy, z: oz };
}

} // verus!
