//! Lifecycle animation: bodies grow in from zero scale when spawned,
//! shrink back to zero before removal, and far-away bodies are switched
//! into the shrink rather than removed outright.

use vstd::prelude::*;

verus! {

use crate::fxvec::{Vec3x, tdiv, div_trunc, lemma_tdiv_le, lemma_mul_abs_bound2, MAX_RADIUS};

/// How long a grow-in or shrink-out runs, in milliseconds.
pub const ANIMATION_DURATION_MS: i64 = 500;

/// Where a body stands in its life: growing in, fully live, or shrinking
/// out toward removal.
#[derive(Clone, Copy, Debug, PartialEq, Eq, Structural)]
pub enum Phase {
    Growing { elapsed_ms: i64 },
    Live,
    Shrinking { elapsed_ms: i64 },
}

/// An animation clock never runs outside its duration.
pub open spec fn wf_phase(p: Phase) -> bool {
    match p {
        Phase::Growing { elapsed_ms } => 0 <= elapsed_ms <= ANIMATION_DURATION_MS,
        Phase::Live => true,
        Phase::Shrinking { elapsed_ms } => 0 <= elapsed_ms <= ANIMATION_DURATION_MS,
    }
}

/// The scale fraction of an animation: `size * elapsed / duration`.
pub open spec fn spec_anim_scale(size: int, elapsed_ms: int) -> int {
    tdiv(size * elapsed_ms, ANIMATION_DURATION_MS as int)
}

/// `size * elapsed / duration`, between zero and the full size.
pub fn anim_scale(size: i64, elapsed_ms: i64) -> (s: i64)
    requires
        0 < size <= MAX_RADIUS,
        0 <= elapsed_ms <= ANIMATION_DURATION_MS,
    ensures
        s == spec_anim_scale(size as int, elapsed_ms as int),
        0 <= s <= size,
{
    proof {
        lemma_mul_abs_bound2(size as int, elapsed_ms as int, MAX_RADIUS as int, 500);
        assert(size * elapsed_ms <= size * 500 && 0 <= size * elapsed_ms) by (nonlinear_arith)
            requires
                0 < size,
                0 <= elapsed_ms <= 500,
        ;
        lemma_tdiv_le(size * elapsed_ms, 500, size as int);
        crate::fxvec::lemma_tdiv(size * elapsed_ms, 500);
    }
    let q = div_trunc((size as i128) * (elapsed_ms as i128), 500);
    q as i64
}

/// The visual scale of a body in its phase: a growing body shows the
/// elapsed fraction of its size, a live body its full size, a shrinking
/// body the remaining fraction.
pub fn visual_scale(size: i64, phase: Phase) -> (s: i64)
    requires
        0 < size <= MAX_RADIUS,
        wf_phase(phase),
    ensures
        phase matches Phase::Growing { elapsed_ms } ==> s == spec_anim_scale(
            size as int,
            elapsed_ms as int,
        ),
        phase is Live ==> s == size,
        phase matches Phase::Shrinking { elapsed_ms } ==> s == size - spec_anim_scale(
            size as int,
            elapsed_ms as int,
        ),
        0 <= s <= size,
{
    match phase {
        Phase::Growing { elapsed_ms } => anim_scale(size, elapsed_ms),
        Phase::Live => size,
        Phase::Shrinking { elapsed_ms } => size - anim_scale(size, elapsed_ms),
    }
}

/// One step of a phase clock, as a value: the next phase and whether the
/// body is now due for removal.
pub open spec fn spec_step_phase(phase: Phase, dt_ms: int) -> (Phase, bool) {
    match phase {
        Phase::Growing { elapsed_ms } => if elapsed_ms + dt_ms >= ANIMATION_DURATION_MS {
            (Phase::Live, false)
        } else {
            (Phase::Growing { elapsed_ms: (elapsed_ms + dt_ms) as i64 }, false)
        },
        Phase::Live => (Phase::Live, false),
        Phase::Shrinking { elapsed_ms } => if elapsed_ms + dt_ms >= ANIMATION_DURATION_MS {
            (Phase::Shrinking { elapsed_ms: ANIMATION_DURATION_MS }, true)
        } else {
            (Phase::Shrinking { elapsed_ms: (elapsed_ms + dt_ms) as i64 }, false)
        },
    }
}

/// Advances a phase clock by one time step. Returns the next phase and
/// whether the body is now due for removal: a grow-in that completes makes
/// the body fully live, a shrink-out that completes removes it.
pub fn step_phase(phase: Phase, dt_ms: i64) -> (r: (Phase, bool))
    requires
        wf_phase(phase),
        0 <= dt_ms <= crate::body::MAX_DT_MS,
    ensures
        wf_phase(r.0),
        r == spec_step_phase(phase, dt_ms as int),
{
    match phase {
        Phase::Growing { elapsed_ms } => {
            if elapsed_ms + dt_ms >= ANIMATION_DURATION_MS {
                (Phase::Live, false)
            } else {
                (Phase::Growing { elapsed_ms: elapsed_ms + dt_ms }, false)
            }
        },
        Phase::Live => (Phase::Live, false),
        Phase::Shrinking { elapsed_ms } => {
            if elapsed_ms + dt_ms >= ANIMATION_DURATION_MS {
                (Phase::Shrinking { elapsed_ms: ANIMATION_DURATION_MS }, true)
            } else {
                (Phase::Shrinking { elapsed_ms: elapsed_ms + dt_ms }, false)
            }
        },
    }
}

/// Whether a position stands farther from the player than the given
/// range, on squared distances.
pub open spec fn spec_beyond_range(pos: Vec3x, player_pos: Vec3x, range: int) -> bool {
    (pos.x - player_pos.x) * (pos.x - player_pos.x) + (pos.y - player_pos.y) * (pos.y
        - player_pos.y) + (pos.z - player_pos.z) * (pos.z - player_pos.z) > range * range
}

/// Whether a body stands farther from the player than the given range,
/// decided on squared distances.
pub fn beyond_range(pos: Vec3x, player_pos: Vec3x, range: i64) -> (r: bool)
    requires
        crate::fxvec::in_box(pos, 8_000_000),
        crate::fxvec::in_box(player_pos, 8_000_000),
        0 <= range <= 8_000_000,
    ensures
        r == spec_beyond_range(pos, player_pos, range as int),
{
    let dx = pos.x - player_pos.x;
    let dy = pos.y - player_pos.y;
    let dz = pos.z - player_pos.z;
    proof {
        crate::fxvec::lemma_mul_abs_bound(dx as int, dx as int, 16_000_000);
        crate::fxvec::lemma_mul_abs_bound(dy as int, dy as int, 16_000_000);
        crate::fxvec::lemma_mul_abs_bound(dz as int, dz as int, 16_000_000);
        crate::fxvec::lemma_mul_abs_bound(range as int, range as int, 8_000_000);
    }
    let d2: i128 = (dx as i128) * (dx as i128) + (dy as i128) * (dy as i128) + (dz as i128) * (
    dz as i128);
    d2 > (range as i128) * (range as i128)
}

} // verus!
