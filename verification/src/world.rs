//! The body store and the simulation tick.
//!
//! One tick runs, in order: motion integration, asteroid-asteroid contact
//! resolution, player contacts (asteroids, then the star), projectile
//! hits, the population spawner, and the lifecycle animator. Structural
//! changes (spawns and removals) within a stage are buffered and applied
//! after the pairwise scan that produced them, so no pass mutates the set
//! it iterates.

use vstd::prelude::*;

verus! {

use crate::fxvec::{Vec3x, in_box, tdiv, spec_clamp, spec_norm_sq, spec_dot, spec_isqrt, MAX_POS, MAX_VEL};
use crate::body::{
    Body,
    wf_body_state,
    spec_mass,
    move_body,
    rotate_body,
    to_collision_body,
    MAX_DT_MS,
    TAU_MILLI,
};
use crate::collide::{
    CollisionBody,
    wf_body,
    in_contact,
    mass_collision,
    spec_in_contact,
    eff_dx,
    eff_dy,
    eff_dz,
    sh_a,
    sh_b,
    dv_a,
    dv_b,
};
use crate::fragment::{fragment_asteroid, random_split_axis, fragment_sun};
use crate::sample::random_unit_scaled;
use crate::score::MAX_CLASS_SIZE;
use crate::spawn::{SpawnConfig, wf_config, plan_wave};
use crate::lifecycle::{Phase, wf_phase, step_phase, beyond_range};

/// The player's fixed collision mass (a six-unit sphere's worth).
pub const PLAYER_MASS: i64 = 216_000_000_000;

/// A projectile's contact radius.
pub const AMMO_RADIUS: i64 = 1000;

/// An asteroid in the store: its physics body and its lifecycle phase.
#[derive(Clone, Copy, Debug, PartialEq, Eq, Structural)]
pub struct AsteroidEntry {
    pub body: Body,
    pub phase: Phase,
}

/// A store entry is a well-formed body of class-rangeable size with a sane
/// clock.
pub open spec fn wf_entry(e: AsteroidEntry) -> bool {
    &&& wf_body_state(e.body)
    &&& e.body.size <= MAX_CLASS_SIZE
    &&& wf_phase(e.phase)
}

/// The authoritative set of mobile bodies, plus score and configuration.
pub struct World {
    pub config: SpawnConfig,
    pub ammo_despawn_range: i64,
    pub asteroids: Vec<AsteroidEntry>,
    /// Stars carry no lifecycle phase: a split star is replaced by its
    /// children at once, where asteroids shrink out first. Giving stars
    /// the same shrink-out would put a phase on this field.
    pub suns: Vec<Body>,
    pub ammos: Vec<Body>,
    pub player: Body,
    pub score: u32,
    pub game_over: bool,
}

/// Well-formedness of the whole store.
pub open spec fn wf_world(w: World) -> bool {
    &&& wf_config(w.config)
    &&& 0 <= w.ammo_despawn_range <= 4_000_000
    &&& forall|i: int| 0 <= i < w.asteroids.len() ==> wf_entry(#[trigger] w.asteroids[i])
    &&& forall|i: int| 0 <= i < w.suns.len() ==> wf_body_state(#[trigger] w.suns[i])
    &&& forall|i: int| 0 <= i < w.ammos.len() ==> wf_body_state(#[trigger] w.ammos[i])
    &&& wf_body_state(w.player)
}

/// A store entry as the resolver sees it: the body's sphere with its
/// cubed-size mass.
pub open spec fn spec_cb(e: AsteroidEntry) -> CollisionBody {
    CollisionBody {
        pos: e.body.pos,
        vel: e.body.vel,
        radius: e.body.size,
        mass: spec_mass(e.body.size as int) as i64,
    }
}

/// The player as the resolver sees it: its own sphere, the fixed mass.
pub open spec fn spec_player_cb(w: World) -> CollisionBody {
    CollisionBody { pos: w.player.pos, vel: w.player.vel, radius: w.player.size, mass: PLAYER_MASS }
}

/// A star as the resolver sees it.
pub open spec fn spec_sun_cb(b: Body) -> CollisionBody {
    CollisionBody { pos: b.pos, vel: b.vel, radius: b.size, mass: spec_mass(b.size as int) as i64 }
}

/// A projectile as the resolver sees it: the fixed contact radius, unit
/// mass (a projectile is never itself bounced).
pub open spec fn spec_ammo_cb(b: Body) -> CollisionBody {
    CollisionBody { pos: b.pos, vel: b.vel, radius: AMMO_RADIUS, mass: 1 }
}

/// The first body's position after a resolved contact: the resolver's
/// positional correction, clamped back into the world box.
pub open spec fn resolved_pos_a(ca: CollisionBody, cb: CollisionBody) -> Vec3x {
    Vec3x {
        x: spec_clamp(ca.pos.x + sh_a(ca, cb, eff_dx(ca, cb)), MAX_POS as int) as i64,
        y: spec_clamp(ca.pos.y + sh_a(ca, cb, eff_dy(ca, cb)), MAX_POS as int) as i64,
        z: spec_clamp(ca.pos.z + sh_a(ca, cb, eff_dz(ca, cb)), MAX_POS as int) as i64,
    }
}

/// The first body's velocity after a resolved contact: the resolver's
/// impulse, clamped into the velocity box.
pub open spec fn resolved_vel_a(ca: CollisionBody, cb: CollisionBody) -> Vec3x {
    Vec3x {
        x: spec_clamp(ca.vel.x + dv_a(ca, cb, eff_dx(ca, cb)), MAX_VEL as int) as i64,
        y: spec_clamp(ca.vel.y + dv_a(ca, cb, eff_dy(ca, cb)), MAX_VEL as int) as i64,
        z: spec_clamp(ca.vel.z + dv_a(ca, cb, eff_dz(ca, cb)), MAX_VEL as int) as i64,
    }
}

/// The second body's position after a resolved contact.
pub open spec fn resolved_pos_b(ca: CollisionBody, cb: CollisionBody) -> Vec3x {
    Vec3x {
        x: spec_clamp(cb.pos.x + sh_b(ca, cb, eff_dx(ca, cb)), MAX_POS as int) as i64,
        y: spec_clamp(cb.pos.y + sh_b(ca, cb, eff_dy(ca, cb)), MAX_POS as int) as i64,
        z: spec_clamp(cb.pos.z + sh_b(ca, cb, eff_dz(ca, cb)), MAX_POS as int) as i64,
    }
}

/// The second body's velocity after a resolved contact.
pub open spec fn resolved_vel_b(ca: CollisionBody, cb: CollisionBody) -> Vec3x {
    Vec3x {
        x: spec_clamp(cb.vel.x + dv_b(ca, cb, eff_dx(ca, cb)), MAX_VEL as int) as i64,
        y: spec_clamp(cb.vel.y + dv_b(ca, cb, eff_dy(ca, cb)), MAX_VEL as int) as i64,
        z: spec_clamp(cb.vel.z + dv_b(ca, cb, eff_dz(ca, cb)), MAX_VEL as int) as i64,
    }
}

/// One integration step as a value: the orientation turns by `spin * dt`
/// wrapped into one turn, the position advances by `velocity * dt` and is
/// clamped into the world box; everything else is kept.
pub open spec fn spec_integrate_body(b: Body, dt: int) -> Body {
    Body {
        pos: Vec3x {
            x: spec_clamp(b.pos.x + tdiv(b.vel.x * dt, 1000), MAX_POS as int) as i64,
            y: spec_clamp(b.pos.y + tdiv(b.vel.y * dt, 1000), MAX_POS as int) as i64,
            z: spec_clamp(b.pos.z + tdiv(b.vel.z * dt, 1000), MAX_POS as int) as i64,
        },
        vel: b.vel,
        spin: b.spin,
        orient: Vec3x {
            x: ((b.orient.x + tdiv(b.spin.x * dt, 1000)) % (TAU_MILLI as int)) as i64,
            y: ((b.orient.y + tdiv(b.spin.y * dt, 1000)) % (TAU_MILLI as int)) as i64,
            z: ((b.orient.z + tdiv(b.spin.z * dt, 1000)) % (TAU_MILLI as int)) as i64,
        },
        size: b.size,
    }
}

/// The larger of two counts.
pub open spec fn spec_max(a: int, b: int) -> int {
    if a >= b {
        a
    } else {
        b
    }
}

/// The saturating score sum.
pub open spec fn spec_add_score(score: u32, points: u32) -> u32 {
    if score + points <= u32::MAX {
        (score + points) as u32
    } else {
        u32::MAX
    }
}

/// Adds points to the score, saturating instead of wrapping; the score
/// never decreases.
pub fn add_score(score: u32, points: u32) -> (r: u32)
    ensures
        r == spec_add_score(score, points),
        r >= score,
        score + points <= u32::MAX ==> r == score + points,
{
    if score <= u32::MAX - points {
        score + points
    } else {
        u32::MAX
    }
}

/// The motion stage, as a relation between the worlds before and after:
/// every body is integrated by one `spec_integrate_body` step; nothing
/// else changes.
pub open spec fn rel_integrate(w0: World, w1: World, dt: int) -> bool {
    &&& w1.asteroids.len() == w0.asteroids.len()
    &&& forall|k: int|
        0 <= k < w0.asteroids.len() ==> #[trigger] w1.asteroids[k] == (AsteroidEntry {
            body: spec_integrate_body(w0.asteroids[k].body, dt),
            phase: w0.asteroids[k].phase,
        })
    &&& w1.suns.len() == w0.suns.len()
    &&& forall|k: int|
        0 <= k < w0.suns.len() ==> #[trigger] w1.suns[k] == spec_integrate_body(w0.suns[k], dt)
    &&& w1.ammos.len() == w0.ammos.len()
    &&& forall|k: int|
        0 <= k < w0.ammos.len() ==> #[trigger] w1.ammos[k] == spec_integrate_body(w0.ammos[k], dt)
    &&& w1.player == spec_integrate_body(w0.player, dt)
    &&& w1.config == w0.config
    &&& w1.ammo_despawn_range == w0.ammo_despawn_range
    &&& w1.score == w0.score
    &&& w1.game_over == w0.game_over
}

/// The range-culling stage as a relation: every asteroid keeps its body;
/// one not already shrinking that stands beyond the despawn range starts
/// its shrink-out, every other phase is kept.
pub open spec fn rel_clear_asteroid(w0: World, w1: World) -> bool {
    &&& w1.asteroids.len() == w0.asteroids.len()
    &&& forall|k: int|
        0 <= k < w0.asteroids.len() ==> #[trigger] w1.asteroids[k] == (AsteroidEntry {
            body: w0.asteroids[k].body,
            phase: if !(w0.asteroids[k].phase is Shrinking) && crate::lifecycle::spec_beyond_range(
                w0.asteroids[k].body.pos,
                w0.player.pos,
                w0.config.despawn_range as int,
            ) {
                Phase::Shrinking { elapsed_ms: 0 }
            } else {
                w0.asteroids[k].phase
            },
        })
    &&& w1.suns == w0.suns
    &&& w1.ammos == w0.ammos
    &&& w1.player == w0.player
    &&& w1.config == w0.config
    &&& w1.ammo_despawn_range == w0.ammo_despawn_range
    &&& w1.score == w0.score
    &&& w1.game_over == w0.game_over
}

/// The grow-in animator as a relation: growing clocks advance by one
/// step (promoting a finished grow-in to live); every other entry is kept.
pub open spec fn rel_animate_spawn(w0: World, w1: World, dt: int) -> bool {
    &&& w1.asteroids.len() == w0.asteroids.len()
    &&& forall|k: int|
        0 <= k < w0.asteroids.len() ==> #[trigger] w1.asteroids[k] == (AsteroidEntry {
            body: w0.asteroids[k].body,
            phase: if w0.asteroids[k].phase is Growing {
                crate::lifecycle::spec_step_phase(w0.asteroids[k].phase, dt).0
            } else {
                w0.asteroids[k].phase
            },
        })
    &&& w1.suns == w0.suns
    &&& w1.ammos == w0.ammos
    &&& w1.player == w0.player
    &&& w1.config == w0.config
    &&& w1.ammo_despawn_range == w0.ammo_despawn_range
    &&& w1.score == w0.score
    &&& w1.game_over == w0.game_over
}

/// One shrink-out step over a whole store, last entry first: a shrinking
/// clock advances and a completed shrink drops the entry; everything else
/// is kept.
pub open spec fn spec_despawn_step(s: Seq<AsteroidEntry>, dt: int) -> Seq<AsteroidEntry>
    decreases s.len(),
{
    if s.len() == 0 {
        Seq::empty()
    } else {
        let prev = spec_despawn_step(s.drop_last(), dt);
        let e = s.last();
        if e.phase is Shrinking {
            if crate::lifecycle::spec_step_phase(e.phase, dt).1 {
                prev
            } else {
                prev.push(
                    AsteroidEntry {
                        body: e.body,
                        phase: crate::lifecycle::spec_step_phase(e.phase, dt).0,
                    },
                )
            }
        } else {
            prev.push(e)
        }
    }
}

/// The shrink-out animator as a relation.
pub open spec fn rel_animate_despawn(w0: World, w1: World, dt: int) -> bool {
    &&& w1.asteroids@ == spec_despawn_step(w0.asteroids@, dt)
    &&& w1.suns == w0.suns
    &&& w1.ammos == w0.ammos
    &&& w1.player == w0.player
    &&& w1.config == w0.config
    &&& w1.ammo_despawn_range == w0.ammo_despawn_range
    &&& w1.score == w0.score
    &&& w1.game_over == w0.game_over
}

/// The projectiles kept by one culling pass: exactly those within the
/// despawn distance of the player, in order.
pub open spec fn spec_ammos_kept(s: Seq<Body>, player_pos: Vec3x, range: int) -> Seq<Body>
    decreases s.len(),
{
    if s.len() == 0 {
        Seq::empty()
    } else {
        let prev = spec_ammos_kept(s.drop_last(), player_pos, range);
        if crate::lifecycle::spec_beyond_range(s.last().pos, player_pos, range) {
            prev
        } else {
            prev.push(s.last())
        }
    }
}

/// The projectile-culling stage as a relation.
pub open spec fn rel_clear_ammos(w0: World, w1: World) -> bool {
    &&& w1.ammos@ == spec_ammos_kept(w0.ammos@, w0.player.pos, w0.ammo_despawn_range as int)
    &&& w1.asteroids == w0.asteroids
    &&& w1.suns == w0.suns
    &&& w1.player == w0.player
    &&& w1.config == w0.config
    &&& w1.ammo_despawn_range == w0.ammo_despawn_range
    &&& w1.score == w0.score
    &&& w1.game_over == w0.game_over
}

/// The outcome of the player striking asteroid `k`: both bodies take the
/// resolver's full update — the asteroid is displaced and deflected as
/// the second body, the player is displaced and deflected as the first —
/// and the run is over. Nothing else changes.
pub open spec fn rel_player_hit_at(w0: World, w1: World, k: int) -> bool {
    let cp = spec_player_cb(w0);
    let cb = spec_cb(w0.asteroids[k]);
    &&& w1.asteroids@ == w0.asteroids@.update(
        k,
        AsteroidEntry {
            body: Body {
                pos: resolved_pos_b(cp, cb),
                vel: resolved_vel_b(cp, cb),
                ..w0.asteroids[k].body
            },
            phase: w0.asteroids[k].phase,
        },
    )
    &&& w1.player == (Body {
        pos: resolved_pos_a(cp, cb),
        vel: resolved_vel_a(cp, cb),
        ..w0.player
    })
    &&& w1.game_over == true
    &&& w1.suns == w0.suns
    &&& w1.ammos == w0.ammos
    &&& w1.score == w0.score
    &&& w1.config == w0.config
    &&& w1.ammo_despawn_range == w0.ammo_despawn_range
}

/// The player-contact stage as a relation: if no asteroid touches the
/// player, nothing changes at all; otherwise the first touching asteroid
/// (and only it) is resolved and the run ends.
pub open spec fn rel_player_pass(w0: World, w1: World) -> bool {
    &&& (forall|k: int|
        0 <= k < w0.asteroids.len() ==> !spec_in_contact(
            spec_player_cb(w0),
            #[trigger] spec_cb(w0.asteroids[k]),
        )) ==> w1 == w0
    &&& forall|k: int|
        (0 <= k < w0.asteroids.len() && spec_in_contact(
            spec_player_cb(w0),
            #[trigger] spec_cb(w0.asteroids[k]),
        ) && (forall|m: int|
            0 <= m < k ==> !spec_in_contact(
                spec_player_cb(w0),
                #[trigger] spec_cb(w0.asteroids[m]),
            ))) ==> rel_player_hit_at(w0, w1, k)
}

/// The first child of a split star, thrown forward along the split axis:
/// half the size, placed one half-size along the axis, moving at the law
/// speed for the new size; position and velocity clamped into the world
/// boxes.
pub open spec fn spec_sun_child_a(sun: Body, dir: Vec3x) -> Body {
    let half = sun.size as int / 2;
    let spd = crate::speed::spec_speed_of_size(half);
    Body {
        pos: Vec3x {
            x: spec_clamp(sun.pos.x + tdiv(dir.x * half, 1000), MAX_POS as int) as i64,
            y: spec_clamp(sun.pos.y + tdiv(dir.y * half, 1000), MAX_POS as int) as i64,
            z: spec_clamp(sun.pos.z + tdiv(dir.z * half, 1000), MAX_POS as int) as i64,
        },
        vel: Vec3x {
            x: spec_clamp(tdiv(dir.x * spd, 1000), MAX_VEL as int) as i64,
            y: spec_clamp(tdiv(dir.y * spd, 1000), MAX_VEL as int) as i64,
            z: spec_clamp(tdiv(dir.z * spd, 1000), MAX_VEL as int) as i64,
        },
        spin: Vec3x { x: 0, y: 0, z: 0 },
        orient: Vec3x { x: 0, y: 0, z: 0 },
        size: half as i64,
    }
}

/// The second child of a split star: the mirror of the first.
pub open spec fn spec_sun_child_b(sun: Body, dir: Vec3x) -> Body {
    let half = sun.size as int / 2;
    let spd = crate::speed::spec_speed_of_size(half);
    Body {
        pos: Vec3x {
            x: spec_clamp(sun.pos.x - tdiv(dir.x * half, 1000), MAX_POS as int) as i64,
            y: spec_clamp(sun.pos.y - tdiv(dir.y * half, 1000), MAX_POS as int) as i64,
            z: spec_clamp(sun.pos.z - tdiv(dir.z * half, 1000), MAX_POS as int) as i64,
        },
        vel: Vec3x {
            x: spec_clamp(-tdiv(dir.x * spd, 1000), MAX_VEL as int) as i64,
            y: spec_clamp(-tdiv(dir.y * spd, 1000), MAX_VEL as int) as i64,
            z: spec_clamp(-tdiv(dir.z * spd, 1000), MAX_VEL as int) as i64,
        },
        spin: Vec3x { x: 0, y: 0, z: 0 },
        orient: Vec3x { x: 0, y: 0, z: 0 },
        size: half as i64,
    }
}

/// The struck star with the resolver's full update applied: displaced
/// and deflected as the second body, clamped into the world boxes.
pub open spec fn spec_resolved_sun(w0: World, k: int) -> Body {
    let cp = spec_player_cb(w0);
    let cs = spec_sun_cb(w0.suns[k]);
    Body { pos: resolved_pos_b(cp, cs), vel: resolved_vel_b(cp, cs), ..w0.suns[k] }
}

/// The line from the player to star `k`, before the hit: the axis the
/// split plane is built against.
pub open spec fn spec_sun_axis(w0: World, k: int) -> Vec3x {
    Vec3x {
        x: (w0.suns[k].pos.x - w0.player.pos.x) as i64,
        y: (w0.suns[k].pos.y - w0.player.pos.y) as i64,
        z: (w0.suns[k].pos.z - w0.player.pos.z) as i64,
    }
}

/// The star store after star `k` split along the axis `dir`: the struck
/// star (with the resolver's update applied) is gone, its two mirror
/// children are appended. The axis is near unit length and, when the
/// star does not sit on the player, nearly perpendicular to the
/// player-to-star line.
pub open spec fn sun_split_with(w0: World, s1: Seq<Body>, k: int, dir: Vec3x) -> bool {
    let sun2 = spec_resolved_sun(w0, k);
    let axis = spec_sun_axis(w0, k);
    &&& in_box(dir, 2_100)
    &&& 960_000 <= spec_norm_sq(dir) <= 1_040_000
    &&& spec_norm_sq(axis) >= 250_000 ==> -(19 * spec_isqrt(spec_norm_sq(axis))) <= spec_dot(
        dir,
        axis,
    ) <= 19 * spec_isqrt(spec_norm_sq(axis))
    &&& s1 == w0.suns@.remove(k).push(spec_sun_child_a(sun2, dir)).push(
        spec_sun_child_b(sun2, dir),
    )
}

/// The outcome of the player striking star `k`: both bodies take the
/// resolver's full update — the star as the second body, the player as
/// the first — and the run is over. A star above its split floor is then
/// replaced by its two half-size children thrown apart along some
/// near-unit split axis perpendicular to the player-to-star line; one at
/// or below the floor absorbs the hit, keeping the resolver's update.
/// Nothing else changes.
pub open spec fn rel_sun_hit_at(w0: World, w1: World, k: int) -> bool {
    let cp = spec_player_cb(w0);
    let cs = spec_sun_cb(w0.suns[k]);
    &&& w1.player == (Body {
        pos: resolved_pos_a(cp, cs),
        vel: resolved_vel_a(cp, cs),
        ..w0.player
    })
    &&& w1.game_over == true
    &&& w0.suns[k].size <= crate::fragment::SUN_SPLIT_FLOOR ==> w1.suns@ == w0.suns@.update(
        k,
        spec_resolved_sun(w0, k),
    )
    &&& w0.suns[k].size > crate::fragment::SUN_SPLIT_FLOOR ==> (exists|dir: Vec3x|
        #[trigger] sun_split_with(w0, w1.suns@, k, dir))
    &&& w1.asteroids == w0.asteroids
    &&& w1.ammos == w0.ammos
    &&& w1.score == w0.score
    &&& w1.config == w0.config
    &&& w1.ammo_despawn_range == w0.ammo_despawn_range
}

/// The player-versus-star stage as a relation: if no star touches the
/// player, nothing changes; otherwise the first touching star (and only
/// it) is resolved.
pub open spec fn rel_sun_pass(w0: World, w1: World) -> bool {
    &&& (forall|k: int|
        0 <= k < w0.suns.len() ==> !spec_in_contact(
            spec_player_cb(w0),
            #[trigger] spec_sun_cb(w0.suns[k]),
        )) ==> w1 == w0
    &&& forall|k: int|
        (0 <= k < w0.suns.len() && spec_in_contact(
            spec_player_cb(w0),
            #[trigger] spec_sun_cb(w0.suns[k]),
        ) && (forall|m: int|
            0 <= m < k ==> !spec_in_contact(
                spec_player_cb(w0),
                #[trigger] spec_sun_cb(w0.suns[m]),
            ))) ==> rel_sun_hit_at(w0, w1, k)
}

/// The first child of a fragmented asteroid, given the drawn split and
/// spin axes: half the size, a tenth of its velocity from the impact
/// point (position clamped into the world box), the law speed for the new
/// size along the split axis, spinning at three tenths of it.
pub open spec fn spec_frag_child_a(ast: Body, dir: Vec3x, sd: Vec3x) -> Body {
    let half = ast.size as int / 2;
    let spd = crate::speed::spec_speed_of_size(half);
    let scale = crate::fragment::spec_child_spin_scale(half);
    Body {
        pos: Vec3x {
            x: spec_clamp(ast.pos.x + tdiv(tdiv(dir.x * spd, 1000), 10), MAX_POS as int) as i64,
            y: spec_clamp(ast.pos.y + tdiv(tdiv(dir.y * spd, 1000), 10), MAX_POS as int) as i64,
            z: spec_clamp(ast.pos.z + tdiv(tdiv(dir.z * spd, 1000), 10), MAX_POS as int) as i64,
        },
        vel: Vec3x {
            x: tdiv(dir.x * spd, 1000) as i64,
            y: tdiv(dir.y * spd, 1000) as i64,
            z: tdiv(dir.z * spd, 1000) as i64,
        },
        spin: Vec3x {
            x: tdiv(sd.x * scale, 1000) as i64,
            y: tdiv(sd.y * scale, 1000) as i64,
            z: tdiv(sd.z * scale, 1000) as i64,
        },
        orient: Vec3x { x: 0, y: 0, z: 0 },
        size: half as i64,
    }
}

/// The second child of a fragmented asteroid: velocity and spin the exact
/// negations of the first child's.
pub open spec fn spec_frag_child_b(ast: Body, dir: Vec3x, sd: Vec3x) -> Body {
    let half = ast.size as int / 2;
    let spd = crate::speed::spec_speed_of_size(half);
    let scale = crate::fragment::spec_child_spin_scale(half);
    Body {
        pos: Vec3x {
            x: spec_clamp(ast.pos.x + tdiv(-tdiv(dir.x * spd, 1000), 10), MAX_POS as int) as i64,
            y: spec_clamp(ast.pos.y + tdiv(-tdiv(dir.y * spd, 1000), 10), MAX_POS as int) as i64,
            z: spec_clamp(ast.pos.z + tdiv(-tdiv(dir.z * spd, 1000), 10), MAX_POS as int) as i64,
        },
        vel: Vec3x {
            x: (-tdiv(dir.x * spd, 1000)) as i64,
            y: (-tdiv(dir.y * spd, 1000)) as i64,
            z: (-tdiv(dir.z * spd, 1000)) as i64,
        },
        spin: Vec3x {
            x: (-tdiv(sd.x * scale, 1000)) as i64,
            y: (-tdiv(sd.y * scale, 1000)) as i64,
            z: (-tdiv(sd.z * scale, 1000)) as i64,
        },
        orient: Vec3x { x: 0, y: 0, z: 0 },
        size: half as i64,
    }
}

/// Whether the projectile touches fully live asteroid `k` of the store
/// (bodies growing in or shrinking out are not hit).
pub open spec fn ammo_hits_entry(asts: Seq<AsteroidEntry>, am: Body, k: int) -> bool {
    asts[k].phase is Live && spec_in_contact(spec_ammo_cb(am), spec_cb(asts[k]))
}

/// The index of the first fully live asteroid the projectile touches, at
/// or after `k`; the store length when there is none.
pub open spec fn spec_hit_index(asts: Seq<AsteroidEntry>, am: Body, k: int) -> int
    decreases asts.len() - k,
{
    if k < 0 || k >= asts.len() {
        asts.len() as int
    } else if ammo_hits_entry(asts, am, k) {
        k
    } else {
        spec_hit_index(asts, am, k + 1)
    }
}

/// A scan that found no live contact before `k`, and one at `k` if `k` is
/// in range, pins the first-hit index.
proof fn lemma_hit_index_from(asts: Seq<AsteroidEntry>, am: Body, j: int, k: int)
    requires
        0 <= j <= k <= asts.len(),
        forall|m: int| j <= m < k ==> !ammo_hits_entry(asts, am, m),
        k < asts.len() ==> ammo_hits_entry(asts, am, k),
    ensures
        spec_hit_index(asts, am, j) == if k < asts.len() {
            k
        } else {
            asts.len() as int
        },
    decreases k - j,
{
    if j < k {
        lemma_hit_index_from(asts, am, j + 1, k);
    }
}

/// The store after one projectile hit on entry `k` along the drawn axes:
/// the struck entry starts its shrink-out and, unless it was below the
/// minimum split size, its two growing half-size children are appended.
pub open spec fn spec_hit_asts(
    asts: Seq<AsteroidEntry>,
    k: int,
    dir: Vec3x,
    sd: Vec3x,
) -> Seq<AsteroidEntry> {
    let ast = asts[k].body;
    let marked = asts.update(
        k,
        AsteroidEntry { body: ast, phase: Phase::Shrinking { elapsed_ms: 0 } },
    );
    if ast.size < crate::fragment::MIN_SPLIT_SIZE {
        marked
    } else {
        marked.push(
            AsteroidEntry {
                body: spec_frag_child_a(ast, dir, sd),
                phase: Phase::Growing { elapsed_ms: 0 },
            },
        ).push(
            AsteroidEntry {
                body: spec_frag_child_b(ast, dir, sd),
                phase: Phase::Growing { elapsed_ms: 0 },
            },
        )
    }
}

/// The drawn axes of one hit: the split axis is near unit length and,
/// when the projectile's travel is not degenerate, nearly perpendicular
/// to it; the spin axis is near unit length.
pub open spec fn hit_axes_ok(am: Body, dir: Vec3x, sd: Vec3x) -> bool {
    &&& in_box(dir, 2_100)
    &&& 960_000 <= spec_norm_sq(dir) <= 1_040_000
    &&& spec_norm_sq(am.vel) >= 250_000 ==> -(19 * spec_isqrt(spec_norm_sq(am.vel))) <= spec_dot(
        dir,
        am.vel,
    ) <= 19 * spec_isqrt(spec_norm_sq(am.vel))
    &&& in_box(sd, 1_006)
    &&& 990_000 <= spec_norm_sq(sd) <= 1_011_000
}

/// The projectile pass over a list of projectiles, front to back: each
/// projectile scans the store the earlier ones left; the first fully
/// live asteroid it touches is struck (scoring it, shrinking it out and
/// appending its children) and the projectile is spent, otherwise the
/// projectile is kept, in order.
pub open spec fn rel_ammo_seq(
    ammos: Seq<Body>,
    asts0: Seq<AsteroidEntry>,
    score0: u32,
    kept: Seq<Body>,
    asts1: Seq<AsteroidEntry>,
    score1: u32,
) -> bool
    decreases ammos.len(),
{
    if ammos.len() == 0 {
        &&& kept == Seq::<Body>::empty()
        &&& asts1 == asts0
        &&& score1 == score0
    } else {
        let am = ammos[0];
        let rest = ammos.subrange(1, ammos.len() as int);
        let hk = spec_hit_index(asts0, am, 0);
        if hk < asts0.len() {
            exists|dir: Vec3x, sd: Vec3x|
                #[trigger] hit_axes_ok(am, dir, sd) && rel_ammo_seq(
                    rest,
                    spec_hit_asts(asts0, hk, dir, sd),
                    spec_add_score(
                        score0,
                        crate::score::spec_score_of_class(
                            crate::score::spec_class_of_size(asts0[hk].body.size as int),
                        ),
                    ),
                    kept,
                    asts1,
                    score1,
                )
        } else {
            &&& kept.len() >= 1
            &&& kept[0] == am
            &&& rel_ammo_seq(rest, asts0, score0, kept.subrange(1, kept.len() as int), asts1, score1)
        }
    }
}

/// The projectile stage as a relation.
pub open spec fn rel_ammo_pass(w0: World, w1: World) -> bool {
    &&& rel_ammo_seq(w0.ammos@, w0.asteroids@, w0.score, w1.ammos@, w1.asteroids@, w1.score)
    &&& w1.suns == w0.suns
    &&& w1.player == w0.player
    &&& w1.config == w0.config
    &&& w1.ammo_despawn_range == w0.ammo_despawn_range
    &&& w1.game_over == w0.game_over
}

/// One pair step of the pairwise pass: entries `i` and `j` are resolved
/// by the elastic resolver when their spheres touch (the first as body a,
/// the second as body b, phases and sizes kept), and the store is
/// untouched otherwise.
pub open spec fn spec_pair_step(s: Seq<AsteroidEntry>, i: int, j: int) -> Seq<AsteroidEntry> {
    let ca = spec_cb(s[i]);
    let cb = spec_cb(s[j]);
    if spec_in_contact(ca, cb) {
        s.update(
            i,
            AsteroidEntry {
                body: Body {
                    pos: resolved_pos_a(ca, cb),
                    vel: resolved_vel_a(ca, cb),
                    ..s[i].body
                },
                phase: s[i].phase,
            },
        ).update(
            j,
            AsteroidEntry {
                body: Body {
                    pos: resolved_pos_b(ca, cb),
                    vel: resolved_vel_b(ca, cb),
                    ..s[j].body
                },
                phase: s[j].phase,
            },
        )
    } else {
        s
    }
}

/// One row of the pairwise pass: entry `i` against every later entry, in
/// order, each step applied to the store the previous steps left.
pub open spec fn spec_pass_row(s: Seq<AsteroidEntry>, n: int, i: int, j: int) -> Seq<AsteroidEntry>
    decreases n - j,
{
    if j >= n {
        s
    } else {
        spec_pass_row(spec_pair_step(s, i, j), n, i, j + 1)
    }
}

/// The whole pairwise pass: every unordered pair `(i, j)` with `i < j`,
/// processed sequentially in row order.
pub open spec fn spec_pass(s: Seq<AsteroidEntry>, n: int, i: int) -> Seq<AsteroidEntry>
    decreases n - i,
{
    if i >= n {
        s
    } else {
        spec_pass(spec_pass_row(s, n, i, i + 1), n, i + 1)
    }
}

/// The pairwise stage as a relation.
pub open spec fn rel_pairs(w0: World, w1: World) -> bool {
    &&& w1.asteroids@ == spec_pass(w0.asteroids@, w0.asteroids.len() as int, 0)
    &&& w1.suns == w0.suns
    &&& w1.ammos == w0.ammos
    &&& w1.player == w0.player
    &&& w1.score == w0.score
    &&& w1.config == w0.config
    &&& w1.ammo_despawn_range == w0.ammo_despawn_range
    &&& w1.game_over == w0.game_over
}

/// The spawner stage as a relation: the population is topped up exactly
/// to the cap, existing entries untouched, every new entry a growing
/// spawn construction.
pub open spec fn rel_wave(w0: World, w1: World) -> bool {
    &&& w1.asteroids.len() == spec_max(w0.asteroids.len() as int, w0.config.max_asteroid as int)
    &&& forall|q: int|
        0 <= q < w0.asteroids.len() ==> #[trigger] w1.asteroids[q] == w0.asteroids[q]
    &&& forall|q: int|
        w0.asteroids.len() <= q < w1.asteroids.len() ==> (#[trigger] w1.asteroids[q]).phase == (
        Phase::Growing { elapsed_ms: 0 }) && crate::spawn::spec_spawned(
            w0.config,
            w0.player.pos,
            w1.asteroids[q].body,
        )
    &&& w1.suns == w0.suns
    &&& w1.ammos == w0.ammos
    &&& w1.player == w0.player
    &&& w1.score == w0.score
    &&& w1.config == w0.config
    &&& w1.ammo_despawn_range == w0.ammo_despawn_range
    &&& w1.game_over == w0.game_over
}

/// The whole tick as a chain of stage relations over the intermediate
/// worlds: motion, pair resolution, the two player stages (skipped once
/// the run is over), the projectile stage, the spawner, and the four
/// lifecycle stages, in their fixed order.
pub open spec fn tick_stages(
    w0: World,
    w1: World,
    w2: World,
    w3: World,
    w4: World,
    w5: World,
    w6: World,
    w7: World,
    w8: World,
    w9: World,
    wend: World,
    dt: int,
) -> bool {
    &&& rel_integrate(w0, w1, dt)
    &&& rel_pairs(w1, w2)
    &&& if w2.game_over {
        w3 == w2
    } else {
        rel_player_pass(w2, w3)
    }
    &&& if w3.game_over {
        w4 == w3
    } else {
        rel_sun_pass(w3, w4)
    }
    &&& rel_ammo_pass(w4, w5)
    &&& rel_wave(w5, w6)
    &&& rel_clear_asteroid(w6, w7)
    &&& rel_animate_spawn(w7, w8, dt)
    &&& rel_animate_despawn(w8, w9, dt)
    &&& rel_clear_ammos(w9, wend)
}

/// One tick relates the worlds before and after through some chain of
/// intermediate worlds, one per stage.
pub open spec fn rel_tick(w0: World, wend: World, dt: int) -> bool {
    exists|w1: World, w2: World, w3: World, w4: World, w5: World, w6: World, w7: World, w8: World, w9: World|
        #[trigger] tick_stages(w0, w1, w2, w3, w4, w5, w6, w7, w8, w9, wend, dt)
}

/// No two asteroids of the store touch.
pub open spec fn all_pairs_separated(s: Seq<AsteroidEntry>) -> bool {
    forall|i: int, j: int|
        0 <= i < j < s.len() ==> !#[trigger] spec_in_contact(spec_cb(s[i]), spec_cb(s[j]))
}

/// A row of the pairwise pass over a fully separated store changes
/// nothing.
proof fn lemma_pass_row_identity(s: Seq<AsteroidEntry>, n: int, i: int, j: int)
    requires
        all_pairs_separated(s),
        n <= s.len(),
        0 <= i < j,
    ensures
        spec_pass_row(s, n, i, j) == s,
    decreases n - j,
{
    if j < n {
        assert(spec_pair_step(s, i, j) == s);
        lemma_pass_row_identity(s, n, i, j + 1);
    }
}

/// The pairwise pass over a fully separated store changes nothing.
proof fn lemma_pass_identity(s: Seq<AsteroidEntry>, n: int, i: int)
    requires
        all_pairs_separated(s),
        n <= s.len(),
        0 <= i,
    ensures
        spec_pass(s, n, i) == s,
    decreases n - i,
{
    if i < n {
        lemma_pass_row_identity(s, n, i, i + 1);
        lemma_pass_identity(s, n, i + 1);
    }
}

/// One integration step for a body held in the world box: move, rotate,
/// One integration step for a body held in the world box: move, rotate,
/// then clamp the position back into the box.
fn integrate_one(b: &mut Body, dt_ms: i64)
    requires
        wf_body_state(*old(b)),
        0 <= dt_ms <= MAX_DT_MS,
    ensures
        wf_body_state(*final(b)),
        *final(b) == spec_integrate_body(*old(b), dt_ms as int),
        final(b).size == old(b).size,
        final(b).vel == old(b).vel,
        final(b).spin == old(b).spin,
{
    rotate_body(b, dt_ms);
    move_body(b, dt_ms);
    b.pos = b.pos.clamp_box(MAX_POS);
    proof {
        assert(*b == spec_integrate_body(*old(b), dt_ms as int));
    }
}

impl World {
    /// The motion integrator: advances every body's position by
    /// `velocity * dt` and its orientation by `spin * dt`, keeping all of
    /// them inside the world box. Every body takes exactly one
    /// `spec_integrate_body` step; nothing else changes.
    pub fn integrate(&mut self, dt_ms: i64)
        requires
            wf_world(*old(self)),
            0 <= dt_ms <= MAX_DT_MS,
        ensures
            wf_world(*final(self)),
            rel_integrate(*old(self), *final(self), dt_ms as int),
    {
        let n = self.asteroids.len();
        let mut i: usize = 0;
        while i < n
            invariant
                0 <= i <= n,
                n == self.asteroids.len(),
                wf_world(*self),
                self.config == old(self).config,
                self.ammo_despawn_range == old(self).ammo_despawn_range,
                self.suns == old(self).suns,
                self.ammos == old(self).ammos,
                self.player == old(self).player,
                self.score == old(self).score,
                self.game_over == old(self).game_over,
                self.asteroids.len() == old(self).asteroids.len(),
                0 <= dt_ms <= MAX_DT_MS,
                forall|k: int|
                    0 <= k < i ==> #[trigger] self.asteroids[k] == (AsteroidEntry {
                        body: spec_integrate_body(old(self).asteroids[k].body, dt_ms as int),
                        phase: old(self).asteroids[k].phase,
                    }),
                forall|k: int|
                    i <= k < n ==> #[trigger] self.asteroids[k] == old(self).asteroids[k],
            decreases n - i,
        {
            let e = self.asteroids[i];
            let mut b = e.body;
            integrate_one(&mut b, dt_ms);
            self.asteroids[i] = AsteroidEntry { body: b, phase: e.phase };
            i = i + 1;
        }
        let ns = self.suns.len();
        let mut j: usize = 0;
        while j < ns
            invariant
                0 <= j <= ns,
                ns == self.suns.len(),
                wf_world(*self),
                self.config == old(self).config,
                self.ammo_despawn_range == old(self).ammo_despawn_range,
                self.ammos == old(self).ammos,
                self.player == old(self).player,
                self.score == old(self).score,
                self.game_over == old(self).game_over,
                self.asteroids.len() == old(self).asteroids.len(),
                self.suns.len() == old(self).suns.len(),
                0 <= dt_ms <= MAX_DT_MS,
                forall|k: int|
                    0 <= k < self.asteroids.len() ==> #[trigger] self.asteroids[k]
                        == (AsteroidEntry {
                        body: spec_integrate_body(old(self).asteroids[k].body, dt_ms as int),
                        phase: old(self).asteroids[k].phase,
                    }),
                forall|k: int|
                    0 <= k < j ==> #[trigger] self.suns[k] == spec_integrate_body(
                        old(self).suns[k],
                        dt_ms as int,
                    ),
                forall|k: int| j <= k < ns ==> #[trigger] self.suns[k] == old(self).suns[k],
            decreases ns - j,
        {
            let mut b = self.suns[j];
            integrate_one(&mut b, dt_ms);
            self.suns[j] = b;
            j = j + 1;
        }
        let na = self.ammos.len();
        let mut m: usize = 0;
        while m < na
            invariant
                0 <= m <= na,
                na == self.ammos.len(),
                wf_world(*self),
                self.config == old(self).config,
                self.ammo_despawn_range == old(self).ammo_despawn_range,
                self.player == old(self).player,
                self.score == old(self).score,
                self.game_over == old(self).game_over,
                self.asteroids.len() == old(self).asteroids.len(),
                self.suns.len() == old(self).suns.len(),
                self.ammos.len() == old(self).ammos.len(),
                0 <= dt_ms <= MAX_DT_MS,
                forall|k: int|
                    0 <= k < self.asteroids.len() ==> #[trigger] self.asteroids[k]
                        == (AsteroidEntry {
                        body: spec_integrate_body(old(self).asteroids[k].body, dt_ms as int),
                        phase: old(self).asteroids[k].phase,
                    }),
                forall|k: int|
                    0 <= k < self.suns.len() ==> #[trigger] self.suns[k] == spec_integrate_body(
                        old(self).suns[k],
                        dt_ms as int,
                    ),
                forall|k: int|
                    0 <= k < m ==> #[trigger] self.ammos[k] == spec_integrate_body(
                        old(self).ammos[k],
                        dt_ms as int,
                    ),
                forall|k: int| m <= k < na ==> #[trigger] self.ammos[k] == old(self).ammos[k],
            decreases na - m,
        {
            let mut b = self.ammos[m];
            integrate_one(&mut b, dt_ms);
            self.ammos[m] = b;
            m = m + 1;
        }
        let mut p = self.player;
        integrate_one(&mut p, dt_ms);
        self.player = p;
    }

    /// Pairwise contact detection and resolution over the asteroid
    /// population: every unordered pair in contact is resolved by the
    /// elastic collision, sequentially in row order, with velocities and
    /// positions clamped back into the world box. The result is exactly
    /// the pass fold `spec_pass`; in particular a fully separated
    /// population is left untouched.
    pub fn asteroid_asteroid_collision(&mut self)
        requires
            wf_world(*old(self)),
        ensures
            wf_world(*final(self)),
            rel_pairs(*old(self), *final(self)),
            final(self).asteroids@ == spec_pass(
                old(self).asteroids@,
                old(self).asteroids.len() as int,
                0,
            ),
            all_pairs_separated(old(self).asteroids@) ==> final(self).asteroids@ == old(
                self,
            ).asteroids@,
            final(self).asteroids.len() == old(self).asteroids.len(),
            final(self).suns == old(self).suns,
            final(self).ammos == old(self).ammos,
            final(self).player == old(self).player,
            final(self).score == old(self).score,
            final(self).config == old(self).config,
            final(self).ammo_despawn_range == old(self).ammo_despawn_range,
            final(self).game_over == old(self).game_over,
            forall|k: int|
                0 <= k < final(self).asteroids.len() ==> (#[trigger] final(self).asteroids[k]).phase
                    == old(self).asteroids[k].phase && final(self).asteroids[k].body.size == old(
                self).asteroids[k].body.size,
    {
        let n = self.asteroids.len();
        let mut i: usize = 0;
        while i < n
            invariant
                0 <= i <= n,
                n == self.asteroids.len(),
                wf_world(*self),
                self.config == old(self).config,
                self.ammo_despawn_range == old(self).ammo_despawn_range,
                self.suns == old(self).suns,
                self.ammos == old(self).ammos,
                self.player == old(self).player,
                self.score == old(self).score,
                self.game_over == old(self).game_over,
                self.asteroids.len() == old(self).asteroids.len(),
                spec_pass(self.asteroids@, n as int, i as int) == spec_pass(
                    old(self).asteroids@,
                    n as int,
                    0,
                ),
                forall|k: int|
                    0 <= k < n ==> (#[trigger] self.asteroids[k]).phase == old(self).asteroids[k].phase
                        && self.asteroids[k].body.size == old(self).asteroids[k].body.size,
            decreases n - i,
        {
            let mut j: usize = i + 1;
            while j < n
                invariant
                    0 <= i < j <= n,
                    n == self.asteroids.len(),
                    wf_world(*self),
                    self.config == old(self).config,
                    self.ammo_despawn_range == old(self).ammo_despawn_range,
                    self.suns == old(self).suns,
                    self.ammos == old(self).ammos,
                    self.player == old(self).player,
                    self.score == old(self).score,
                    self.game_over == old(self).game_over,
                    self.asteroids.len() == old(self).asteroids.len(),
                    spec_pass(
                        spec_pass_row(self.asteroids@, n as int, i as int, j as int),
                        n as int,
                        i + 1 as int,
                    ) == spec_pass(old(self).asteroids@, n as int, 0),
                    forall|k: int|
                        0 <= k < n ==> (#[trigger] self.asteroids[k]).phase == old(self).asteroids[k].phase
                            && self.asteroids[k].body.size == old(self).asteroids[k].body.size,
                decreases n - j,
            {
                let ghost s_pre = self.asteroids@;
                let ea = self.asteroids[i];
                let eb = self.asteroids[j];
                let mut ca = to_collision_body(&ea.body);
                let mut cb = to_collision_body(&eb.body);
                proof {
                    crate::body::lemma_mass_in_range(ea.body.size as int);
                    crate::body::lemma_mass_in_range(eb.body.size as int);
                    assert(ca == spec_cb(s_pre[i as int]));
                    assert(cb == spec_cb(s_pre[j as int]));
                }
                if in_contact(&ca, &cb) {
                    let ghost ca0 = ca;
                    let ghost cb0 = cb;
                    mass_collision(&mut ca, &mut cb);
                    let ba = Body {
                        pos: ca.pos.clamp_box(MAX_POS),
                        vel: ca.vel.clamp_box(MAX_VEL),
                        ..ea.body
                    };
                    let bb = Body {
                        pos: cb.pos.clamp_box(MAX_POS),
                        vel: cb.vel.clamp_box(MAX_VEL),
                        ..eb.body
                    };
                    proof {
                        assert(ba.pos == resolved_pos_a(ca0, cb0));
                        assert(ba.vel == resolved_vel_a(ca0, cb0));
                        assert(bb.pos == resolved_pos_b(ca0, cb0));
                        assert(bb.vel == resolved_vel_b(ca0, cb0));
                    }
                    self.asteroids[i] = AsteroidEntry { body: ba, phase: ea.phase };
                    self.asteroids[j] = AsteroidEntry { body: bb, phase: eb.phase };
                    proof {
                        assert(self.asteroids@ =~= spec_pair_step(s_pre, i as int, j as int));
                    }
                } else {
                    proof {
                        assert(self.asteroids@ =~= spec_pair_step(s_pre, i as int, j as int));
                    }
                }
                j = j + 1;
            }
            i = i + 1;
        }
        proof {
            if all_pairs_separated(old(self).asteroids@) {
                lemma_pass_identity(old(self).asteroids@, n as int, 0);
                assert(self.asteroids@ =~= old(self).asteroids@);
            }
        }
    }

    /// The player's collision body: its own sphere but a fixed mass.
    fn player_collision_body(&self) -> (c: CollisionBody)
        requires
            wf_world(*self),
        ensures
            wf_body(c),
            c.pos == self.player.pos,
            c.vel == self.player.vel,
            c.radius == self.player.size,
            c.mass == PLAYER_MASS,
    {
        CollisionBody {
            pos: self.player.pos,
            vel: self.player.vel,
            radius: self.player.size,
            mass: PLAYER_MASS,
        }
    }

    /// Player-versus-asteroid contact: the first asteroid found touching
    /// the player is resolved elastically (the asteroid is displaced, the
    /// player only changes velocity) and the hit ends the run; at most one
    /// player collision is resolved per tick, and with no contact nothing
    /// changes.
    pub fn asteroid_player_collision(&mut self)
        requires
            wf_world(*old(self)),
        ensures
            wf_world(*final(self)),
            rel_player_pass(*old(self), *final(self)),
            final(self).asteroids.len() == old(self).asteroids.len(),
            final(self).suns == old(self).suns,
            final(self).ammos == old(self).ammos,
            final(self).score == old(self).score,
            final(self).config == old(self).config,
    {
        let n = self.asteroids.len();
        let mut i: usize = 0;
        while i < n
            invariant
                0 <= i <= n,
                n == self.asteroids.len(),
                wf_world(*self),
                *self == *old(self),
                forall|m: int|
                    0 <= m < i ==> !spec_in_contact(
                        spec_player_cb(*old(self)),
                        #[trigger] spec_cb(old(self).asteroids[m]),
                    ),
            decreases n - i,
        {
            let e = self.asteroids[i];
            let mut cp = self.player_collision_body();
            let mut cb = to_collision_body(&e.body);
            proof {
                crate::body::lemma_mass_in_range(e.body.size as int);
                assert(cp == spec_player_cb(*old(self)));
                assert(cb == spec_cb(old(self).asteroids[i as int]));
            }
            if in_contact(&cp, &cb) {
                let ghost cp0 = cp;
                let ghost cb0 = cb;
                mass_collision(&mut cp, &mut cb);
                let nb = Body {
                    pos: cb.pos.clamp_box(MAX_POS),
                    vel: cb.vel.clamp_box(MAX_VEL),
                    ..e.body
                };
                proof {
                    assert(nb.pos == resolved_pos_b(cp0, cb0));
                    assert(nb.vel == resolved_vel_b(cp0, cb0));
                }
                self.asteroids[i] = AsteroidEntry { body: nb, phase: e.phase };
                let mut p = self.player;
                p.pos = cp.pos.clamp_box(MAX_POS);
                p.vel = cp.vel.clamp_box(MAX_VEL);
                proof {
                    assert(p.pos == resolved_pos_a(cp0, cb0));
                    assert(p.vel == resolved_vel_a(cp0, cb0));
                }
                self.player = p;
                self.game_over = true;
                proof {
                    assert(rel_player_hit_at(*old(self), *self, i as int));
                }
                return ;
            }
            i = i + 1;
        }
    }

    /// Player-versus-star contact: resolved like any elastic collision
    /// (only the player's velocity changes), and a star above its split
    /// floor is replaced by two half-size children flying apart along a
    /// random perpendicular axis. A star at or below the floor absorbs the
    /// hit. At most one such contact is resolved per tick, and with no
    /// contact nothing changes.
    pub fn sun_player_collision(&mut self)
        requires
            wf_world(*old(self)),
        ensures
            wf_world(*final(self)),
            rel_sun_pass(*old(self), *final(self)),
            final(self).asteroids == old(self).asteroids,
            final(self).ammos == old(self).ammos,
            final(self).score == old(self).score,
            final(self).config == old(self).config,
            final(self).suns.len() <= old(self).suns.len() + 1,
    {
        let n = self.suns.len();
        let mut i: usize = 0;
        while i < n
            invariant
                0 <= i <= n,
                n == self.suns.len(),
                wf_world(*self),
                *self == *old(self),
                forall|m: int|
                    0 <= m < i ==> !spec_in_contact(
                        spec_player_cb(*old(self)),
                        #[trigger] spec_sun_cb(old(self).suns[m]),
                    ),
            decreases n - i,
        {
            let sun = self.suns[i];
            let mut cp = self.player_collision_body();
            let mut cs = CollisionBody {
                pos: sun.pos,
                vel: sun.vel,
                radius: sun.size,
                mass: crate::body::mass_of_size(sun.size),
            };
            proof {
                assert(cp == spec_player_cb(*old(self)));
                assert(cs == spec_sun_cb(old(self).suns[i as int]));
            }
            if in_contact(&cp, &cs) {
                let ghost cp0 = cp;
                let ghost cs0 = cs;
                // the split axis is drawn against the pre-collision line
                // from the player to the star
                let away = sun.pos.minus(self.player.pos);
                proof {
                    assert(away == spec_sun_axis(*old(self), i as int));
                }
                mass_collision(&mut cp, &mut cs);
                let mut p = self.player;
                p.pos = cp.pos.clamp_box(MAX_POS);
                p.vel = cp.vel.clamp_box(MAX_VEL);
                proof {
                    assert(p.pos == resolved_pos_a(cp0, cs0));
                    assert(p.vel == resolved_vel_a(cp0, cs0));
                }
                self.player = p;
                self.game_over = true;
                let sun2 = Body {
                    pos: cs.pos.clamp_box(MAX_POS),
                    vel: cs.vel.clamp_box(MAX_VEL),
                    ..sun
                };
                proof {
                    assert(sun2 == spec_resolved_sun(*old(self), i as int));
                }
                if sun.size <= crate::fragment::SUN_SPLIT_FLOOR {
                    // at or below the floor the star absorbs the hit,
                    // keeping the resolver's update
                    self.suns[i] = sun2;
                    proof {
                        assert(rel_sun_hit_at(*old(self), *self, i as int));
                    }
                    return ;
                }
                let dir = random_split_axis(away);
                let children = fragment_sun(&sun2, dir);
                match children {
                    Some(pair) => {
                        let mut c1 = pair.0;
                        let mut c2 = pair.1;
                        c1.pos = c1.pos.clamp_box(MAX_POS);
                        c1.vel = c1.vel.clamp_box(MAX_VEL);
                        c2.pos = c2.pos.clamp_box(MAX_POS);
                        c2.vel = c2.vel.clamp_box(MAX_VEL);
                        proof {
                            assert(c1 == spec_sun_child_a(sun2, dir));
                            assert(c2 == spec_sun_child_b(sun2, dir));
                        }
                        self.suns.remove(i);
                        self.suns.push(c1);
                        self.suns.push(c2);
                        proof {
                            assert(sun_split_with(*old(self), self.suns@, i as int, dir));
                        }
                    },
                    None => {},
                }
                proof {
                    assert(rel_sun_hit_at(*old(self), *self, i as int));
                }
                return ;
            }
            i = i + 1;
        }
    }

    /// The first fully live asteroid of the store the projectile touches,
    /// or the store length when there is none.
    fn find_hit_index(asts: &Vec<AsteroidEntry>, am: &Body) -> (k: usize)
        requires
            forall|q: int| 0 <= q < asts.len() ==> wf_entry(#[trigger] asts[q]),
            wf_body_state(*am),
        ensures
            k <= asts.len(),
            k as int == spec_hit_index(asts@, *am, 0),
    {
        let ca = CollisionBody { pos: am.pos, vel: am.vel, radius: AMMO_RADIUS, mass: 1 };
        proof {
            assert(ca == spec_ammo_cb(*am));
        }
        let n = asts.len();
        let mut k: usize = 0;
        while k < n
            invariant
                0 <= k <= n,
                n == asts.len(),
                forall|q: int| 0 <= q < asts.len() ==> wf_entry(#[trigger] asts[q]),
                wf_body_state(*am),
                wf_body(ca),
                ca == spec_ammo_cb(*am),
                forall|m: int| 0 <= m < k ==> !ammo_hits_entry(asts@, *am, m),
            decreases n - k,
        {
            let e = asts[k];
            let live = match e.phase {
                Phase::Live => true,
                _ => false,
            };
            let cb = to_collision_body(&e.body);
            proof {
                crate::body::lemma_mass_in_range(e.body.size as int);
                assert(cb == spec_cb(asts@[k as int]));
            }
            if live && in_contact(&ca, &cb) {
                proof {
                    lemma_hit_index_from(asts@, *am, 0, k as int);
                }
                return k;
            }
            k = k + 1;
        }
        proof {
            lemma_hit_index_from(asts@, *am, 0, n as int);
        }
        n
    }

    /// Projectile-versus-asteroid contact: each projectile in turn scans
    /// the store the earlier ones left; the first fully live asteroid it
    /// touches is struck — the projectile is spent, the asteroid's class
    /// score is added, it starts its shrink-out, and its two half-size
    /// children appear beside it (none if it was below the minimum split
    /// size) — and the scan stops for that projectile. Bodies growing in
    /// or shrinking out are not hit; a projectile with no hit is kept.
    pub fn asteroid_ammo_collision(&mut self)
        requires
            wf_world(*old(self)),
        ensures
            wf_world(*final(self)),
            rel_ammo_pass(*old(self), *final(self)),
            final(self).score >= old(self).score,
            final(self).asteroids.len() <= old(self).asteroids.len() + 2 * old(self).ammos.len(),
            final(self).ammos.len() <= old(self).ammos.len(),
            final(self).suns == old(self).suns,
            final(self).player == old(self).player,
            final(self).config == old(self).config,
            final(self).game_over == old(self).game_over,
    {
        let na = self.ammos.len();
        let mut kept: Vec<Body> = Vec::new();
        let mut ai: usize = 0;
        proof {
            assert(old(self).ammos@.subrange(0, na as int) =~= old(self).ammos@);
        }
        while ai < na
            invariant
                0 <= ai <= na,
                na == old(self).ammos.len(),
                wf_world(*self),
                self.ammos@ == old(self).ammos@,
                self.suns == old(self).suns,
                self.player == old(self).player,
                self.config == old(self).config,
                self.ammo_despawn_range == old(self).ammo_despawn_range,
                self.game_over == old(self).game_over,
                self.score >= old(self).score,
                kept.len() <= ai,
                self.asteroids.len() <= old(self).asteroids.len() + 2 * ai,
                forall|q: int| 0 <= q < kept.len() ==> wf_body_state(#[trigger] kept[q]),
                forall|kk: Seq<Body>, aa: Seq<AsteroidEntry>, ss: u32|
                    #[trigger] rel_ammo_seq(
                        old(self).ammos@.subrange(ai as int, na as int),
                        self.asteroids@,
                        self.score,
                        kk,
                        aa,
                        ss,
                    ) ==> rel_ammo_seq(
                        old(self).ammos@,
                        old(self).asteroids@,
                        old(self).score,
                        kept@ + kk,
                        aa,
                        ss,
                    ),
            decreases na - ai,
        {
            let ghost asts_pre = self.asteroids@;
            let ghost score_pre = self.score;
            let ghost kept_pre = kept@;
            let ammo = self.ammos[ai];
            proof {
                assert(old(self).ammos@.subrange(ai as int, na as int)[0] == ammo);
                assert(old(self).ammos@.subrange(ai as int, na as int).subrange(
                    1,
                    (na - ai) as int,
                ) =~= old(self).ammos@.subrange(ai + 1 as int, na as int));
            }
            let hk = Self::find_hit_index(&self.asteroids, &ammo);
            if hk < self.asteroids.len() {
                // the hit: spend the projectile, score and shrink the
                // asteroid, and append its children
                let e = self.asteroids[hk];
                let dir = random_split_axis(ammo.vel);
                let spin_dir = random_unit_scaled();
                let out = fragment_asteroid(&e.body, dir, spin_dir);
                self.score = add_score(self.score, out.score);
                self.asteroids[hk] = AsteroidEntry {
                    body: e.body,
                    phase: Phase::Shrinking { elapsed_ms: 0 },
                };
                match out.children {
                    Some(pair) => {
                        let mut c1 = pair.0;
                        let mut c2 = pair.1;
                        c1.pos = c1.pos.clamp_box(MAX_POS);
                        c2.pos = c2.pos.clamp_box(MAX_POS);
                        proof {
                            assert(c1 == spec_frag_child_a(e.body, dir, spin_dir));
                            assert(c2 == spec_frag_child_b(e.body, dir, spin_dir));
                        }
                        self.asteroids.push(
                            AsteroidEntry { body: c1, phase: Phase::Growing { elapsed_ms: 0 } },
                        );
                        self.asteroids.push(
                            AsteroidEntry { body: c2, phase: Phase::Growing { elapsed_ms: 0 } },
                        );
                    },
                    None => {},
                }
                proof {
                    assert(hit_axes_ok(ammo, dir, spin_dir));
                    assert(self.asteroids@ =~= spec_hit_asts(asts_pre, hk as int, dir, spin_dir));
                    assert forall|kk: Seq<Body>, aa: Seq<AsteroidEntry>, ss: u32|
                        #[trigger] rel_ammo_seq(
                            old(self).ammos@.subrange(ai + 1 as int, na as int),
                            self.asteroids@,
                            self.score,
                            kk,
                            aa,
                            ss,
                        ) implies rel_ammo_seq(
                        old(self).ammos@,
                        old(self).asteroids@,
                        old(self).score,
                        kept@ + kk,
                        aa,
                        ss,
                    ) by {
                        assert(hit_axes_ok(ammo, dir, spin_dir) && rel_ammo_seq(
                            old(self).ammos@.subrange(ai as int, na as int).subrange(
                                1,
                                (na - ai) as int,
                            ),
                            spec_hit_asts(asts_pre, hk as int, dir, spin_dir),
                            spec_add_score(
                                score_pre,
                                crate::score::spec_score_of_class(
                                    crate::score::spec_class_of_size(
                                        asts_pre[hk as int].body.size as int,
                                    ),
                                ),
                            ),
                            kk,
                            aa,
                            ss,
                        ));
                        assert(rel_ammo_seq(
                            old(self).ammos@.subrange(ai as int, na as int),
                            asts_pre,
                            score_pre,
                            kk,
                            aa,
                            ss,
                        ));
                    }
                }
            } else {
                kept.push(ammo);
                proof {
                    assert forall|kk: Seq<Body>, aa: Seq<AsteroidEntry>, ss: u32|
                        #[trigger] rel_ammo_seq(
                            old(self).ammos@.subrange(ai + 1 as int, na as int),
                            self.asteroids@,
                            self.score,
                            kk,
                            aa,
                            ss,
                        ) implies rel_ammo_seq(
                        old(self).ammos@,
                        old(self).asteroids@,
                        old(self).score,
                        kept@ + kk,
                        aa,
                        ss,
                    ) by {
                        let ckk = seq![ammo] + kk;
                        assert(ckk[0] == ammo);
                        assert(ckk.subrange(1, ckk.len() as int) =~= kk);
                        assert(rel_ammo_seq(
                            old(self).ammos@.subrange(ai as int, na as int),
                            asts_pre,
                            score_pre,
                            ckk,
                            aa,
                            ss,
                        ));
                        assert(kept@ + kk =~= kept_pre + ckk);
                    }
                }
            }
            ai = ai + 1;
        }
        proof {
            assert(old(self).ammos@.subrange(na as int, na as int) =~= Seq::<Body>::empty());
            assert(rel_ammo_seq(
                old(self).ammos@.subrange(na as int, na as int),
                self.asteroids@,
                self.score,
                Seq::<Body>::empty(),
                self.asteroids@,
                self.score,
            ));
            assert(kept@ + Seq::<Body>::empty() =~= kept@);
        }
        self.ammos = kept;
    }

    /// The population spawner: tops the asteroid count up to the
    /// configured maximum, spawning exactly the difference and never more;
    /// a population at or over the cap is left alone. Existing entries
    /// are untouched; every new entry grows in from zero and is a spawn
    /// construction for this configuration (sized in range, on the shell,
    /// law-speed velocity).
    pub fn asteroid_wave(&mut self)
        requires
            wf_world(*old(self)),
        ensures
            wf_world(*final(self)),
            rel_wave(*old(self), *final(self)),
            final(self).asteroids.len() == spec_max(
                old(self).asteroids.len() as int,
                old(self).config.max_asteroid as int,
            ),
            forall|q: int|
                0 <= q < old(self).asteroids.len() ==> #[trigger] final(self).asteroids[q] == old(
                self).asteroids[q],
            forall|q: int|
                old(self).asteroids.len() <= q < final(self).asteroids.len() ==> (
                #[trigger] final(self).asteroids[q]).phase == (Phase::Growing { elapsed_ms: 0 })
                    && crate::spawn::spec_spawned(
                    old(self).config,
                    old(self).player.pos,
                    final(self).asteroids[q].body,
                ),
            final(self).suns == old(self).suns,
            final(self).ammos == old(self).ammos,
            final(self).player == old(self).player,
            final(self).score == old(self).score,
            final(self).config == old(self).config,
            final(self).ammo_despawn_range == old(self).ammo_despawn_range,
            final(self).game_over == old(self).game_over,
    {
        let live = self.asteroids.len();
        let wave = plan_wave(&self.config, live, self.player.pos);
        let wn = wave.len();
        let mut i: usize = 0;
        while i < wn
            invariant
                0 <= i <= wn,
                wn == wave.len(),
                wf_world(*self),
                self.config == old(self).config,
                self.ammo_despawn_range == old(self).ammo_despawn_range,
                self.suns == old(self).suns,
                self.ammos == old(self).ammos,
                self.player == old(self).player,
                self.score == old(self).score,
                self.game_over == old(self).game_over,
                self.asteroids.len() == old(self).asteroids.len() + i,
                forall|q: int|
                    0 <= q < old(self).asteroids.len() ==> #[trigger] self.asteroids[q] == old(
                    self).asteroids[q],
                forall|q: int|
                    old(self).asteroids.len() <= q < self.asteroids.len() ==> (
                    #[trigger] self.asteroids[q]).phase == (Phase::Growing { elapsed_ms: 0 })
                        && crate::spawn::spec_spawned(
                        old(self).config,
                        old(self).player.pos,
                        self.asteroids[q].body,
                    ),
                forall|q: int|
                    0 <= q < wave.len() ==> wf_body_state(#[trigger] wave[q])
                        && crate::spawn::spec_spawned(
                        old(self).config,
                        old(self).player.pos,
                        wave[q],
                    ),
            decreases wn - i,
        {
            let b = wave[i];
            self.asteroids.push(AsteroidEntry { body: b, phase: Phase::Growing { elapsed_ms: 0 } });
            i = i + 1;
        }
    }

    /// Range culling: every asteroid keeps its body; any one not already
    /// shrinking out that stands farther from the player than the despawn
    /// range is switched into its shrink-out rather than removed outright,
    /// and every other phase is kept.
    pub fn clear_asteroid(&mut self)
        requires
            wf_world(*old(self)),
        ensures
            wf_world(*final(self)),
            rel_clear_asteroid(*old(self), *final(self)),
    {
        let n = self.asteroids.len();
        let mut i: usize = 0;
        while i < n
            invariant
                0 <= i <= n,
                n == self.asteroids.len(),
                wf_world(*self),
                self.config == old(self).config,
                self.ammo_despawn_range == old(self).ammo_despawn_range,
                self.suns == old(self).suns,
                self.ammos == old(self).ammos,
                self.player == old(self).player,
                self.score == old(self).score,
                self.game_over == old(self).game_over,
                self.asteroids.len() == old(self).asteroids.len(),
                forall|k: int|
                    0 <= k < i ==> #[trigger] self.asteroids[k] == (AsteroidEntry {
                        body: old(self).asteroids[k].body,
                        phase: if !(old(self).asteroids[k].phase is Shrinking)
                            && crate::lifecycle::spec_beyond_range(
                            old(self).asteroids[k].body.pos,
                            old(self).player.pos,
                            old(self).config.despawn_range as int,
                        ) {
                            Phase::Shrinking { elapsed_ms: 0 }
                        } else {
                            old(self).asteroids[k].phase
                        },
                    }),
                forall|k: int|
                    i <= k < n ==> #[trigger] self.asteroids[k] == old(self).asteroids[k],
            decreases n - i,
        {
            let e = self.asteroids[i];
            let shrinking = match e.phase {
                Phase::Shrinking { .. } => true,
                _ => false,
            };
            if !shrinking && beyond_range(e.body.pos, self.player.pos, self.config.despawn_range) {
                self.asteroids[i] = AsteroidEntry {
                    body: e.body,
                    phase: Phase::Shrinking { elapsed_ms: 0 },
                };
            } else {
                self.asteroids[i] = e;
            }
            i = i + 1;
        }
    }

    /// The grow-in animator: every growing clock advances by one step
    /// (promoting a finished grow-in to fully live); every other entry is
    /// kept as it is. (A growing body already takes part in contact tests;
    /// the clock only drives its visual scale.)
    pub fn animate_spawn(&mut self, dt_ms: i64)
        requires
            wf_world(*old(self)),
            0 <= dt_ms <= MAX_DT_MS,
        ensures
            wf_world(*final(self)),
            rel_animate_spawn(*old(self), *final(self), dt_ms as int),
    {
        let n = self.asteroids.len();
        let mut i: usize = 0;
        while i < n
            invariant
                0 <= i <= n,
                n == self.asteroids.len(),
                wf_world(*self),
                self.config == old(self).config,
                self.ammo_despawn_range == old(self).ammo_despawn_range,
                self.suns == old(self).suns,
                self.ammos == old(self).ammos,
                self.player == old(self).player,
                self.score == old(self).score,
                self.game_over == old(self).game_over,
                self.asteroids.len() == old(self).asteroids.len(),
                0 <= dt_ms <= MAX_DT_MS,
                forall|k: int|
                    0 <= k < i ==> #[trigger] self.asteroids[k] == (AsteroidEntry {
                        body: old(self).asteroids[k].body,
                        phase: if old(self).asteroids[k].phase is Growing {
                            crate::lifecycle::spec_step_phase(
                                old(self).asteroids[k].phase,
                                dt_ms as int,
                            ).0
                        } else {
                            old(self).asteroids[k].phase
                        },
                    }),
                forall|k: int|
                    i <= k < n ==> #[trigger] self.asteroids[k] == old(self).asteroids[k],
            decreases n - i,
        {
            let e = self.asteroids[i];
            let growing = match e.phase {
                Phase::Growing { .. } => true,
                _ => false,
            };
            if growing {
                let (next, _) = step_phase(e.phase, dt_ms);
                self.asteroids[i] = AsteroidEntry { body: e.body, phase: next };
            } else {
                self.asteroids[i] = e;
            }
            i = i + 1;
        }
    }

    /// The shrink-out animator: every shrinking clock advances by one
    /// step, a body whose shrink has completed leaves the store, and every
    /// other entry is kept, in order.
    pub fn animate_despawn(&mut self, dt_ms: i64)
        requires
            wf_world(*old(self)),
            0 <= dt_ms <= MAX_DT_MS,
        ensures
            wf_world(*final(self)),
            final(self).asteroids.len() <= old(self).asteroids.len(),
            rel_animate_despawn(*old(self), *final(self), dt_ms as int),
    {
        let n = self.asteroids.len();
        let mut kept: Vec<AsteroidEntry> = Vec::new();
        let mut i: usize = 0;
        while i < n
            invariant
                0 <= i <= n,
                n == self.asteroids.len(),
                wf_world(*self),
                *self == *old(self),
                kept.len() <= i,
                0 <= dt_ms <= MAX_DT_MS,
                kept@ == spec_despawn_step(old(self).asteroids@.take(i as int), dt_ms as int),
                forall|k: int| 0 <= k < kept.len() ==> wf_entry(#[trigger] kept[k]),
            decreases n - i,
        {
            let e = self.asteroids[i];
            proof {
                assert(old(self).asteroids@.take(i + 1 as int).drop_last() =~= old(
                    self,
                ).asteroids@.take(i as int));
                assert(old(self).asteroids@.take(i + 1 as int).last() == old(self).asteroids@[
                    i as int]);
            }
            let shrinking = match e.phase {
                Phase::Shrinking { .. } => true,
                _ => false,
            };
            if shrinking {
                let (next, remove) = step_phase(e.phase, dt_ms);
                if !remove {
                    kept.push(AsteroidEntry { body: e.body, phase: next });
                }
            } else {
                kept.push(e);
            }
            i = i + 1;
        }
        proof {
            assert(old(self).asteroids@.take(n as int) =~= old(self).asteroids@);
        }
        self.asteroids = kept;
    }

    /// Projectile culling: exactly the projectiles within the despawn
    /// distance of the player survive, in order; one farther out vanishes
    /// outright.
    pub fn clear_ammos(&mut self)
        requires
            wf_world(*old(self)),
        ensures
            wf_world(*final(self)),
            final(self).ammos.len() <= old(self).ammos.len(),
            rel_clear_ammos(*old(self), *final(self)),
    {
        let na = self.ammos.len();
        let mut kept_ammos: Vec<Body> = Vec::new();
        let mut m: usize = 0;
        while m < na
            invariant
                0 <= m <= na,
                na == self.ammos.len(),
                wf_world(*self),
                *self == *old(self),
                kept_ammos.len() <= m,
                kept_ammos@ == spec_ammos_kept(
                    old(self).ammos@.take(m as int),
                    old(self).player.pos,
                    old(self).ammo_despawn_range as int,
                ),
                forall|k: int| 0 <= k < kept_ammos.len() ==> wf_body_state(#[trigger] kept_ammos[k]),
            decreases na - m,
        {
            let a = self.ammos[m];
            proof {
                assert(old(self).ammos@.take(m + 1 as int).drop_last() =~= old(self).ammos@.take(
                    m as int,
                ));
                assert(old(self).ammos@.take(m + 1 as int).last() == old(self).ammos@[m as int]);
            }
            if !beyond_range(a.pos, self.player.pos, self.ammo_despawn_range) {
                kept_ammos.push(a);
            }
            m = m + 1;
        }
        proof {
            assert(old(self).ammos@.take(na as int) =~= old(self).ammos@);
        }
        self.ammos = kept_ammos;
    }

    /// Fires one projectile: exactly one body with the given muzzle
    /// position and velocity, the fixed contact radius and no spin, is
    /// appended to the projectiles; nothing else changes.
    pub fn fire_ammo(&mut self, pos: Vec3x, vel: Vec3x)
        requires
            wf_world(*old(self)),
            in_box(pos, MAX_POS as int),
            in_box(vel, MAX_VEL as int),
        ensures
            wf_world(*final(self)),
            final(self).ammos@ == old(self).ammos@.push(
                Body {
                    pos,
                    vel,
                    spin: Vec3x { x: 0, y: 0, z: 0 },
                    orient: Vec3x { x: 0, y: 0, z: 0 },
                    size: AMMO_RADIUS,
                },
            ),
            final(self).asteroids == old(self).asteroids,
            final(self).suns == old(self).suns,
            final(self).player == old(self).player,
            final(self).score == old(self).score,
            final(self).config == old(self).config,
            final(self).ammo_despawn_range == old(self).ammo_despawn_range,
            final(self).game_over == old(self).game_over,
    {
        let zero = Vec3x { x: 0, y: 0, z: 0 };
        self.ammos.push(Body { pos, vel, spin: zero, orient: zero, size: AMMO_RADIUS });
    }

    /// One full simulation tick, the stages in their fixed order: motion,
    /// asteroid pair resolution, player contacts (skipped once the run is
    /// over), projectile hits, the spawner, and the lifecycle animator.
    /// The outcome is exactly the chain of the stage relations; the score
    /// never decreases, and the population never exceeds the configured
    /// cap plus the children of this tick's fragmentations.
    #[verifier::rlimit(100)]
    pub fn tick(&mut self, dt_ms: i64)
        requires
            wf_world(*old(self)),
            0 <= dt_ms <= MAX_DT_MS,
        ensures
            wf_world(*final(self)),
            rel_tick(*old(self), *final(self), dt_ms as int),
            final(self).score >= old(self).score,
            final(self).asteroids.len() <= spec_max(
                old(self).config.max_asteroid as int,
                old(self).asteroids.len() as int + 2 * old(self).ammos.len() as int,
            ),
    {
        self.integrate(dt_ms);
        let ghost w1 = *self;
        self.asteroid_asteroid_collision();
        let ghost w2 = *self;
        if !self.game_over {
            self.asteroid_player_collision();
        }
        let ghost w3 = *self;
        if !self.game_over {
            self.sun_player_collision();
        }
        let ghost w4 = *self;
        self.asteroid_ammo_collision();
        let ghost w5 = *self;
        self.asteroid_wave();
        let ghost w6 = *self;
        self.clear_asteroid();
        let ghost w7 = *self;
        self.animate_spawn(dt_ms);
        let ghost w8 = *self;
        self.animate_despawn(dt_ms);
        let ghost w9 = *self;
        self.clear_ammos();
        proof {
            assert(tick_stages(
                *old(self),
                w1,
                w2,
                w3,
                w4,
                w5,
                w6,
                w7,
                w8,
                w9,
                *self,
                dt_ms as int,
            ));
        }
    }
}

} // verus!
