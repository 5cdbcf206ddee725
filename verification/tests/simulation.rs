use asteroid_sim::body::{mass_of_size, move_body, rotate_body, Body};
use asteroid_sim::collide::{in_contact, mass_collision, CollisionBody};
use asteroid_sim::fragment::{fragment_asteroid, fragment_sun, mix_axes, perp_basis};
use asteroid_sim::fxvec::Vec3x;
use asteroid_sim::lifecycle::{step_phase, visual_scale, Phase};
use asteroid_sim::spawn::SpawnConfig;
use asteroid_sim::speed::speed_of_size;
use asteroid_sim::world::{add_score, AsteroidEntry, World, AMMO_RADIUS};

fn v(x: i64, y: i64, z: i64) -> Vec3x {
    Vec3x { x, y, z }
}

fn zero() -> Vec3x {
    v(0, 0, 0)
}

fn asteroid_at(pos: Vec3x, vel: Vec3x, size: i64) -> Body {
    Body { pos, vel, spin: zero(), orient: zero(), size }
}

fn test_config() -> SpawnConfig {
    SpawnConfig {
        max_asteroid: 50,
        size_min: 1000,
        size_max: 10000,
        spawn_range: 300_000,
        despawn_range: 600_000,
    }
}

fn test_world() -> World {
    World {
        config: test_config(),
        ammo_despawn_range: 500_000,
        asteroids: Vec::new(),
        suns: Vec::new(),
        ammos: Vec::new(),
        player: asteroid_at(v(0, 0, -3_000_000), zero(), 1500),
        score: 0,
        game_over: false,
    }
}

fn momentum(m: i64, vel: Vec3x) -> (i128, i128, i128) {
    (
        m as i128 * vel.x as i128,
        m as i128 * vel.y as i128,
        m as i128 * vel.z as i128,
    )
}

#[test]
fn head_on_collision_conserves_momentum() {
    // radius 2 (mass 8) against radius 4 (mass 64), centers 5.9 units
    // apart (sum of radii 6), closing head-on
    let mut a = CollisionBody {
        pos: v(0, 0, 0),
        vel: v(5000, 0, 0),
        radius: 2000,
        mass: mass_of_size(2000),
    };
    let mut b = CollisionBody {
        pos: v(5900, 0, 0),
        vel: v(-1000, 0, 0),
        radius: 4000,
        mass: mass_of_size(4000),
    };
    assert!(in_contact(&a, &b));
    let before_a = momentum(a.mass, a.vel);
    let before_b = momentum(b.mass, b.vel);
    let vel_a_before = a.vel;
    let vel_b_before = b.vel;
    mass_collision(&mut a, &mut b);
    let after_a = momentum(a.mass, a.vel);
    let after_b = momentum(b.mass, b.vel);
    // the mass-weighted sum survives, to within one velocity tick per
    // unit of mass
    let slack = (a.mass + b.mass) as i128;
    assert!((before_a.0 + before_b.0 - after_a.0 - after_b.0).abs() < slack);
    assert!((before_a.1 + before_b.1 - after_a.1 - after_b.1).abs() < slack);
    assert!((before_a.2 + before_b.2 - after_a.2 - after_b.2).abs() < slack);
    // the lighter body's velocity changes by the larger magnitude
    let da = (a.vel.x - vel_a_before.x).abs();
    let db = (b.vel.x - vel_b_before.x).abs();
    assert!(da > db);
    // separation: the corrected centers stand at least the summed radii
    // apart, give or take a few ticks
    let dx = (b.pos.x - a.pos.x) as i128;
    let dy = (b.pos.y - a.pos.y) as i128;
    let dz = (b.pos.z - a.pos.z) as i128;
    let d2 = dx * dx + dy * dy + dz * dz;
    let r = (a.radius + b.radius - 12) as i128;
    assert!(d2 >= r * r);
}

#[test]
fn coincident_centers_fall_back_to_z_axis() {
    let mut a = CollisionBody {
        pos: v(100, 200, 300),
        vel: v(0, 0, 0),
        radius: 2000,
        mass: mass_of_size(2000),
    };
    let mut b = CollisionBody {
        pos: v(100, 200, 300),
        vel: v(0, 0, 0),
        radius: 2000,
        mass: mass_of_size(2000),
    };
    mass_collision(&mut a, &mut b);
    // the bodies separate along the fallback z axis
    assert_eq!(a.pos.x, 100);
    assert_eq!(b.pos.x, 100);
    assert!(b.pos.z > a.pos.z);
    let gap = (b.pos.z - a.pos.z) as i128;
    assert!(gap * gap >= 3988 * 3988);
}

#[test]
fn contact_is_decided_on_summed_radii() {
    let a = CollisionBody { pos: v(0, 0, 0), vel: zero(), radius: 2000, mass: 1 };
    let touching = CollisionBody { pos: v(5000, 0, 0), vel: zero(), radius: 3000, mass: 1 };
    let apart = CollisionBody { pos: v(5001, 0, 0), vel: zero(), radius: 3000, mass: 1 };
    assert!(in_contact(&a, &touching));
    assert!(!in_contact(&a, &apart));
}

#[test]
fn lethal_hit_removes_both_and_scores() {
    // a projectile sitting on an asteroid of radius 1.5: both go, points
    // for its class (XS), no children
    let mut w = test_world();
    w.asteroids.push(AsteroidEntry {
        body: asteroid_at(v(10_000, 0, 0), v(2000, 0, 0), 1500),
        phase: Phase::Live,
    });
    w.ammos.push(Body {
        pos: v(10_000, 0, 0),
        vel: v(0, 0, 300_000),
        spin: zero(),
        orient: zero(),
        size: AMMO_RADIUS,
    });
    w.asteroid_ammo_collision();
    assert_eq!(w.ammos.len(), 0);
    assert_eq!(w.asteroids.len(), 1);
    assert!(matches!(w.asteroids[0].phase, Phase::Shrinking { .. }));
    assert_eq!(w.score, 50);
}

#[test]
fn fragmenting_hit_spawns_opposite_children() {
    // a projectile hits an asteroid of radius 4: the strike scores, the
    // asteroid shrinks out, and two children of radius 2 appear with
    // exactly opposite velocities of the law speed for radius 2
    let mut w = test_world();
    w.asteroids.push(AsteroidEntry {
        body: asteroid_at(v(0, 0, 0), zero(), 4000),
        phase: Phase::Live,
    });
    w.ammos.push(Body {
        pos: v(4500, 0, 0),
        vel: v(0, 0, 400_000),
        spin: zero(),
        orient: zero(),
        size: AMMO_RADIUS,
    });
    w.asteroid_ammo_collision();
    assert_eq!(w.ammos.len(), 0);
    assert_eq!(w.asteroids.len(), 3);
    assert!(matches!(w.asteroids[0].phase, Phase::Shrinking { .. }));
    assert_eq!(w.score, 30);
    let c1 = w.asteroids[1].body;
    let c2 = w.asteroids[2].body;
    assert_eq!(c1.size, 2000);
    assert_eq!(c2.size, 2000);
    assert_eq!(c2.vel.x, -c1.vel.x);
    assert_eq!(c2.vel.y, -c1.vel.y);
    assert_eq!(c2.vel.z, -c1.vel.z);
    assert_eq!(c2.spin.x, -c1.spin.x);
    assert_eq!(c2.spin.y, -c1.spin.y);
    assert_eq!(c2.spin.z, -c1.spin.z);
    // both children move at roughly the law speed for their new size
    let f = speed_of_size(2000) as i128;
    let n2 = c1.vel.x as i128 * c1.vel.x as i128 + c1.vel.y as i128 * c1.vel.y as i128
        + c1.vel.z as i128 * c1.vel.z as i128;
    let lo = f * f * 95 / 100;
    let hi = f * f * 105 / 100;
    assert!(lo <= n2 && n2 <= hi, "child speed {} outside [{}, {}]", n2, lo, hi);
}

#[test]
fn fragment_with_fixed_axis_gives_exact_velocities() {
    let ast = asteroid_at(v(0, 0, 0), zero(), 4000);
    let out = fragment_asteroid(&ast, v(1000, 0, 0), v(0, 1000, 0));
    assert_eq!(out.score, 30);
    let (c1, c2) = out.children.expect("a four-unit asteroid splits");
    assert_eq!(c1.size, 2000);
    assert_eq!(c2.size, 2000);
    assert_eq!(c1.vel.x, speed_of_size(2000));
    assert_eq!(c1.vel.y, 0);
    assert_eq!(c1.vel.z, 0);
    assert_eq!(c2.vel.x, -speed_of_size(2000));
    // children sit a tenth of their velocity from the impact point
    assert_eq!(c1.pos.x, speed_of_size(2000) / 10);
    assert_eq!(c2.pos.x, -(speed_of_size(2000) / 10));
    // spin at three tenths of the law speed, opposite between children
    let spin_scale = 3 * speed_of_size(2000) / 10;
    assert_eq!(c1.spin.y, spin_scale);
    assert_eq!(c2.spin.y, -spin_scale);
}

#[test]
fn small_asteroid_leaves_no_children() {
    let ast = asteroid_at(v(0, 0, 0), zero(), 1999);
    let out = fragment_asteroid(&ast, v(1000, 0, 0), v(0, 1000, 0));
    assert!(out.children.is_none());
    assert_eq!(out.score, 50);
}

#[test]
fn sun_splits_only_above_its_floor() {
    let low = asteroid_at(v(0, 0, 0), zero(), 62_600);
    assert!(fragment_sun(&low, v(1000, 0, 0)).is_none());
    let high = asteroid_at(v(0, 0, 0), zero(), 100_000);
    let (c1, c2) = fragment_sun(&high, v(1000, 0, 0)).expect("a large star splits");
    assert_eq!(c1.size, 50_000);
    assert_eq!(c2.size, 50_000);
    assert_eq!(c1.vel.x, -c2.vel.x);
    assert_eq!(c1.pos.x, 50_000);
    assert_eq!(c2.pos.x, -50_000);
}

#[test]
fn spawner_fills_exactly_to_the_cap() {
    // 48 live asteroids against a cap of 50: exactly two more appear
    let mut w = test_world();
    for k in 0..48 {
        w.asteroids.push(AsteroidEntry {
            body: asteroid_at(v(200_000 + 10_000 * k, 0, 0), zero(), 3000),
            phase: Phase::Live,
        });
    }
    w.asteroid_wave();
    assert_eq!(w.asteroids.len(), 50);
    for k in 48..50 {
        let s = w.asteroids[k].body.size;
        assert!(w.config.size_min <= s && s <= w.config.size_max);
        assert!(matches!(w.asteroids[k].phase, Phase::Growing { .. }));
    }
}

#[test]
fn spawner_never_overfills() {
    let mut w = test_world();
    for k in 0..55 {
        w.asteroids.push(AsteroidEntry {
            body: asteroid_at(v(200_000 + 10_000 * k, 0, 0), zero(), 3000),
            phase: Phase::Live,
        });
    }
    w.asteroid_wave();
    assert_eq!(w.asteroids.len(), 55);
}

#[test]
fn motion_integrates_position_and_wraps_orientation() {
    let mut b = asteroid_at(v(1000, 2000, 3000), v(500, -250, 0), 2000);
    move_body(&mut b, 2000);
    assert_eq!(b.pos.x, 2000);
    assert_eq!(b.pos.y, 1500);
    assert_eq!(b.pos.z, 3000);
    let mut r = asteroid_at(zero(), zero(), 2000);
    r.spin = v(1000, 0, 0);
    rotate_body(&mut r, 10_000);
    // ten seconds of one radian per second, wrapped into one turn
    assert_eq!(r.orient.x, 10_000 % 6283);
    assert_eq!(r.orient.y, 0);
}

#[test]
fn lifecycle_phases_grow_live_shrink_remove() {
    let (p1, r1) = step_phase(Phase::Growing { elapsed_ms: 0 }, 200);
    assert_eq!(p1, Phase::Growing { elapsed_ms: 200 });
    assert!(!r1);
    let (p2, r2) = step_phase(p1, 300);
    assert_eq!(p2, Phase::Live);
    assert!(!r2);
    let (p3, r3) = step_phase(Phase::Shrinking { elapsed_ms: 400 }, 50);
    assert_eq!(p3, Phase::Shrinking { elapsed_ms: 450 });
    assert!(!r3);
    let (_, r4) = step_phase(p3, 100);
    assert!(r4);
}

#[test]
fn visual_scale_follows_the_clock() {
    assert_eq!(visual_scale(4000, Phase::Growing { elapsed_ms: 0 }), 0);
    assert_eq!(visual_scale(4000, Phase::Growing { elapsed_ms: 250 }), 2000);
    assert_eq!(visual_scale(4000, Phase::Live), 4000);
    assert_eq!(visual_scale(4000, Phase::Shrinking { elapsed_ms: 250 }), 2000);
    assert_eq!(visual_scale(4000, Phase::Shrinking { elapsed_ms: 500 }), 0);
}

#[test]
fn far_asteroids_shrink_out_and_leave() {
    let mut w = test_world();
    w.player.pos = zero();
    // one close, one far beyond the despawn range
    w.asteroids.push(AsteroidEntry {
        body: asteroid_at(v(100_000, 0, 0), zero(), 3000),
        phase: Phase::Live,
    });
    w.asteroids.push(AsteroidEntry {
        body: asteroid_at(v(3_000_000, 0, 0), zero(), 3000),
        phase: Phase::Live,
    });
    w.clear_asteroid();
    w.animate_despawn(100);
    assert_eq!(w.asteroids.len(), 2);
    assert!(matches!(w.asteroids[0].phase, Phase::Live));
    assert!(matches!(w.asteroids[1].phase, Phase::Shrinking { .. }));
    // after the full shrink the far one is removed
    w.animate_despawn(500);
    assert_eq!(w.asteroids.len(), 1);
}

#[test]
fn distant_projectiles_are_cleared() {
    let mut w = test_world();
    w.player.pos = zero();
    w.fire_ammo(v(100, 0, 0), v(400_000, 0, 0));
    w.fire_ammo(v(900_000, 0, 0), v(400_000, 0, 0));
    assert_eq!(w.ammos.len(), 2);
    w.clear_ammos();
    assert_eq!(w.ammos.len(), 1);
}

#[test]
fn player_collision_ends_the_run() {
    let mut w = test_world();
    w.player = asteroid_at(zero(), v(1000, 0, 0), 1500);
    w.asteroids.push(AsteroidEntry {
        body: asteroid_at(v(3000, 0, 0), v(-1000, 0, 0), 2000),
        phase: Phase::Live,
    });
    w.asteroid_player_collision();
    assert!(w.game_over);
    // the player bounces back along the contact axis
    assert!(w.player.vel.x < 1000);
}

#[test]
fn tick_respects_cap_and_score_monotone() {
    let mut w = test_world();
    w.player.pos = zero();
    for k in 0..10 {
        w.asteroids.push(AsteroidEntry {
            body: asteroid_at(v(100_000 + 20_000 * k, 50_000, 0), v(-2000, 0, 0), 3000),
            phase: Phase::Live,
        });
    }
    let mut last_score = w.score;
    for _ in 0..5 {
        w.tick(16);
        assert!(w.asteroids.len() <= w.config.max_asteroid + 2);
        assert!(w.score >= last_score);
        last_score = w.score;
    }
}

#[test]
fn score_addition_saturates() {
    assert_eq!(add_score(10, 50), 60);
    assert_eq!(add_score(u32::MAX - 1, 50), u32::MAX);
    assert_eq!(add_score(u32::MAX, 0), u32::MAX);
}

#[test]
fn split_basis_is_near_orthonormal() {
    let travels = [
        v(400_000, 0, 0),
        v(0, 0, 400_000),
        v(1000, -2000, 3000),
        v(-700, 900, -100_000),
        v(5_000_000, 5_000_000, 5_000_000),
    ];
    for &t in travels.iter() {
        let (u, w) = perp_basis(t);
        let nu = u.x as i128 * u.x as i128 + u.y as i128 * u.y as i128 + u.z as i128 * u.z as i128;
        let nw = w.x as i128 * w.x as i128 + w.y as i128 * w.y as i128 + w.z as i128 * w.z as i128;
        assert!(990_000 <= nu && nu <= 1_011_000);
        assert!(990_000 <= nw && nw <= 1_011_000);
        let duw = u.x as i128 * w.x as i128 + u.y as i128 * w.y as i128 + u.z as i128 * w.z as i128;
        assert!(duw.abs() <= 3018);
        let dut = u.x as i128 * t.x as i128 + u.y as i128 * t.y as i128 + u.z as i128 * t.z as i128;
        let dwt = w.x as i128 * t.x as i128 + w.y as i128 * t.y as i128 + w.z as i128 * t.z as i128;
        let nt = t.x as i128 * t.x as i128 + t.y as i128 * t.y as i128 + t.z as i128 * t.z as i128;
        // |dot| <= 7 * |t|, squared to avoid the root
        assert!(dut * dut <= 49 * nt);
        assert!(dwt * dwt <= 49 * nt);
        // a mixed split axis is near unit length as well
        let dir = mix_axes(u, w, 600, -800);
        let nd = dir.x as i128 * dir.x as i128 + dir.y as i128 * dir.y as i128
            + dir.z as i128 * dir.z as i128;
        assert!(900_000 <= nd && nd <= 1_100_000);
    }
}

#[test]
fn each_projectile_resolves_its_own_hit() {
    // two projectiles, each sitting on its own asteroid: one pass spends
    // both, shrinks both targets, and scores both hits
    let mut w = test_world();
    w.asteroids.push(AsteroidEntry {
        body: asteroid_at(v(10_000, 0, 0), zero(), 1500),
        phase: Phase::Live,
    });
    w.asteroids.push(AsteroidEntry {
        body: asteroid_at(v(-300_000, 0, 0), zero(), 1000),
        phase: Phase::Live,
    });
    w.ammos.push(Body {
        pos: v(10_000, 0, 0),
        vel: v(0, 0, 300_000),
        spin: zero(),
        orient: zero(),
        size: AMMO_RADIUS,
    });
    w.ammos.push(Body {
        pos: v(-300_000, 500, 0),
        vel: v(0, 0, 300_000),
        spin: zero(),
        orient: zero(),
        size: AMMO_RADIUS,
    });
    w.asteroid_ammo_collision();
    assert_eq!(w.ammos.len(), 0);
    assert_eq!(w.asteroids.len(), 2);
    assert!(matches!(w.asteroids[0].phase, Phase::Shrinking { .. }));
    assert!(matches!(w.asteroids[1].phase, Phase::Shrinking { .. }));
    assert_eq!(w.score, 100);
}

#[test]
fn player_hit_applies_the_positional_correction() {
    // overlapping head-on: after the hit the player has been pushed back
    // along the contact axis as well as deflected
    let mut w = test_world();
    w.player = asteroid_at(zero(), v(1000, 0, 0), 1500);
    w.asteroids.push(AsteroidEntry {
        body: asteroid_at(v(3000, 0, 0), v(-1000, 0, 0), 2000),
        phase: Phase::Live,
    });
    w.asteroid_player_collision();
    assert!(w.game_over);
    assert!(w.player.vel.x < 1000);
    assert!(w.player.pos.x < 0, "the player is displaced backward");
    // the pair stands separated afterwards
    let gap = (w.asteroids[0].body.pos.x - w.player.pos.x) as i128;
    assert!(gap >= (3500 - 12) as i128);
}

#[test]
fn struck_star_takes_the_resolver_update() {
    // a star at the split floor absorbs the hit but still gets pushed
    // away and deflected
    let mut w = test_world();
    w.player = asteroid_at(zero(), v(2000, 0, 0), 1500);
    w.suns.push(asteroid_at(v(60_000, 0, 0), zero(), 62_600));
    w.sun_player_collision();
    assert!(w.game_over);
    assert_eq!(w.suns.len(), 1);
    assert_eq!(w.suns[0].size, 62_600);
    // the star was overlapped by 4100 ticks and is displaced forward
    assert!(w.suns[0].pos.x > 60_000);
    assert!(w.suns[0].vel.x > 0, "the star takes the impulse");
}
