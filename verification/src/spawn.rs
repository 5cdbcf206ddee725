//! The population spawner: keeps the asteroid field around the player
//! filled up to a configured count.
//!
//! Each tick the spawner compares the live count to the cap and creates
//! exactly the difference, never more. A new asteroid appears on a
//! spherical shell around the player, its size drawn from a truncated
//! normal over the configured range, its velocity pointing roughly back at
//! the player (jittered), its spin random; it then grows in over the spawn
//! animation.

use vstd::prelude::*;

verus! {

use crate::fxvec::{
    Vec3x,
    in_box,
    tdiv,
    spec_clamp,
    spec_norm_sq,
    spec_isqrt,
    normalize_milli,
    MAX_POS,
};
use crate::body::{Body, wf_body_state};
use crate::speed::{speed_of_size, spec_speed_of_size};
use crate::sample::{sample_truncated_norm, random_unit_scaled};
use crate::score::MAX_CLASS_SIZE;

/// Configuration of the asteroid population.
#[derive(Clone, Copy, Debug, PartialEq, Eq, Structural)]
pub struct SpawnConfig {
    pub max_asteroid: usize,
    pub size_min: i64,
    pub size_max: i64,
    pub spawn_range: i64,
    pub despawn_range: i64,
}

/// Sane machine bounds on a spawner configuration.
pub open spec fn wf_config(cfg: SpawnConfig) -> bool {
    &&& 500 <= cfg.size_min <= cfg.size_max <= MAX_CLASS_SIZE
    &&& 1000 <= cfg.spawn_range <= 2_000_000
    &&& cfg.spawn_range <= cfg.despawn_range <= 4_000_000
    &&& cfg.max_asteroid <= 100_000
}

/// The jittered direction a spawned asteroid flies along, before the law
/// speed is applied: the shell direction nudged by three tenths of the
/// jitter axis, scaled back to unit length (or kept as the bare shell
/// direction in the degenerate case the jitter cancelled it).
pub open spec fn spec_spawn_dir(sd: Vec3x, jd: Vec3x) -> Vec3x {
    let m = Vec3x {
        x: (sd.x + tdiv(jd.x * 300, 1000)) as i64,
        y: (sd.y + tdiv(jd.y * 300, 1000)) as i64,
        z: (sd.z + tdiv(jd.z * 300, 1000)) as i64,
    };
    if spec_norm_sq(m) >= 250_000 {
        Vec3x {
            x: tdiv(m.x * 1000, spec_isqrt(spec_norm_sq(m))) as i64,
            y: tdiv(m.y * 1000, spec_isqrt(spec_norm_sq(m))) as i64,
            z: tdiv(m.z * 1000, spec_isqrt(spec_norm_sq(m))) as i64,
        }
    } else {
        sd
    }
}

/// The full construction of one spawned asteroid from the three drawn
/// axes: it sits one spawn-shell radius from the player along the shell
/// axis (clamped into the world box), flies back along the jittered shell
/// axis at the law speed for its size, and spins around the spin axis at
/// three tenths of that speed.
pub open spec fn spec_spawned_with(
    cfg: SpawnConfig,
    player_pos: Vec3x,
    b: Body,
    sd: Vec3x,
    jd: Vec3x,
    pd: Vec3x,
) -> bool {
    let spd = spec_speed_of_size(b.size as int);
    let scale = 3 * spec_speed_of_size(b.size as int) / 10;
    let od = spec_spawn_dir(sd, jd);
    &&& 990_000 <= spec_norm_sq(sd) <= 1_011_000 && in_box(sd, 1_006)
    &&& 990_000 <= spec_norm_sq(jd) <= 1_011_000 && in_box(jd, 1_006)
    &&& 990_000 <= spec_norm_sq(pd) <= 1_011_000 && in_box(pd, 1_006)
    &&& b.pos == (Vec3x {
        x: spec_clamp(player_pos.x + tdiv(sd.x * cfg.spawn_range, 1000), MAX_POS as int) as i64,
        y: spec_clamp(player_pos.y + tdiv(sd.y * cfg.spawn_range, 1000), MAX_POS as int) as i64,
        z: spec_clamp(player_pos.z + tdiv(sd.z * cfg.spawn_range, 1000), MAX_POS as int) as i64,
    })
    &&& b.vel == (Vec3x {
        x: (-tdiv(od.x * spd, 1000)) as i64,
        y: (-tdiv(od.y * spd, 1000)) as i64,
        z: (-tdiv(od.z * spd, 1000)) as i64,
    })
    &&& b.spin == (Vec3x {
        x: tdiv(pd.x * scale, 1000) as i64,
        y: tdiv(pd.y * scale, 1000) as i64,
        z: tdiv(pd.z * scale, 1000) as i64,
    })
    &&& b.orient == (Vec3x { x: 0, y: 0, z: 0 })
}

/// A body is a freshly spawned asteroid for this configuration: sized
/// inside the configured range and built by the spawn construction from
/// some triple of near-unit axes.
pub open spec fn spec_spawned(cfg: SpawnConfig, player_pos: Vec3x, b: Body) -> bool {
    &&& cfg.size_min <= b.size <= cfg.size_max
    &&& exists|sd: Vec3x, jd: Vec3x, pd: Vec3x|
        #[trigger] spec_spawned_with(cfg, player_pos, b, sd, jd, pd)
}

/// One freshly spawned asteroid: sized inside the configured range, set on
/// the spawn shell around the player (clamped into the world box), flying
/// roughly back toward the player with the law speed for its size.
pub fn spawn_one(cfg: &SpawnConfig, player_pos: Vec3x) -> (b: Body)
    requires
        wf_config(*cfg),
        in_box(player_pos, MAX_POS as int),
    ensures
        wf_body_state(b),
        cfg.size_min <= b.size <= cfg.size_max,
        spec_spawned(*cfg, player_pos, b),
{
    let mean = (cfg.size_min + cfg.size_max) / 2;
    let size = sample_truncated_norm(mean, 3000, cfg.size_min, cfg.size_max);
    let shell_dir = random_unit_scaled();
    proof {
        crate::fragment::lemma_scale_bounds(
            shell_dir,
            cfg.spawn_range as int,
            1_006,
            2_000_000,
            2_012_000,
        );
    }
    let shell = shell_dir.scale_ratio(cfg.spawn_range, 1000);
    let pos = player_pos.plus(shell).clamp_box(MAX_POS);
    // velocity: back along the shell direction, jittered by a bit under a
    // third of a random unit vector
    let jitter = random_unit_scaled();
    proof {
        crate::fxvec::lemma_tdiv_le(jitter.x * 300, 1000, 302);
        crate::fxvec::lemma_tdiv_le(jitter.y * 300, 1000, 302);
        crate::fxvec::lemma_tdiv_le(jitter.z * 300, 1000, 302);
        crate::fxvec::lemma_mul_abs_bound2(jitter.x as int, 300, 1_006, 300);
        crate::fxvec::lemma_mul_abs_bound2(jitter.y as int, 300, 1_006, 300);
        crate::fxvec::lemma_mul_abs_bound2(jitter.z as int, 300, 1_006, 300);
    }
    let mixed = shell_dir.plus(jitter.scale_ratio(300, 1000));
    let n_mixed = mixed.norm_sq128();
    let out_dir = if 250_000 <= n_mixed {
        normalize_milli(mixed)
    } else {
        shell_dir
    };
    let spd = speed_of_size(size);
    proof {
        crate::fragment::lemma_scale_bounds(out_dir, spd as int, 1_006, 6000, 6_036);
    }
    let vel = out_dir.scale_ratio(spd, 1000).neg();
    // spin: a random axis at three tenths of the law speed
    let spin_dir = random_unit_scaled();
    let spin_scale = 3 * spd / 10;
    proof {
        crate::fragment::lemma_scale_bounds(spin_dir, spin_scale as int, 1_006, 1800, 1_900);
    }
    let spin = spin_dir.scale_ratio(spin_scale, 1000);
    let b = Body { pos, vel, spin, orient: Vec3x { x: 0, y: 0, z: 0 }, size };
    proof {
        assert(out_dir == spec_spawn_dir(shell_dir, jitter));
        assert(spec_spawned_with(*cfg, player_pos, b, shell_dir, jitter, spin_dir));
    }
    b
}

/// One spawner tick: tops the population up to the configured cap and
/// never over it. With `live` asteroids alive, exactly
/// `max_asteroid - live` are created (none when the cap is already met),
/// each sized inside the configured range.
pub fn plan_wave(cfg: &SpawnConfig, live: usize, player_pos: Vec3x) -> (wave: Vec<Body>)
    requires
        wf_config(*cfg),
        in_box(player_pos, MAX_POS as int),
    ensures
        live >= cfg.max_asteroid ==> wave.len() == 0,
        live < cfg.max_asteroid ==> wave.len() == cfg.max_asteroid - live,
        forall|i: int|
            0 <= i < wave.len() ==> wf_body_state(#[trigger] wave[i]) && spec_spawned(
                *cfg,
                player_pos,
                wave[i],
            ),
{
    let mut wave: Vec<Body> = Vec::new();
    if live >= cfg.max_asteroid {
        return wave;
    }
    let to_spawn = cfg.max_asteroid - live;
    for k in 0..to_spawn
        invariant
            wf_config(*cfg),
            in_box(player_pos, MAX_POS as int),
            wave.len() == k,
            forall|i: int|
                0 <= i < wave.len() ==> wf_body_state(#[trigger] wave[i]) && spec_spawned(
                    *cfg,
                    player_pos,
                    wave[i],
                ),
    {
        let b = spawn_one(cfg, player_pos);
        wave.push(b);
    }
    wave
}

} // verus!
