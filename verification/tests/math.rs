use asteroid_sim::fxvec::{isqrt, div_trunc, Vec3x, normalize_milli};
use asteroid_sim::score::{class_of_size, class_name, get_score, score_of_class, SizeClass};
use asteroid_sim::sample::{sample_truncated_norm, random_unit_scaled, circle_point};
use asteroid_sim::speed::speed_of_size;
use asteroid_sim::config::scope_path;

#[test]
fn isqrt_exact_values() {
    assert_eq!(isqrt(0), 0);
    assert_eq!(isqrt(1), 1);
    assert_eq!(isqrt(10), 3);
    assert_eq!(isqrt(999_999), 999);
    assert_eq!(isqrt(1_000_000), 1000);
    assert_eq!(isqrt(3_999_999_999_999), 1_999_999);
}

#[test]
fn div_trunc_rounds_toward_zero() {
    assert_eq!(div_trunc(7, 2), 3);
    assert_eq!(div_trunc(-7, 2), -3);
    assert_eq!(div_trunc(6, 3), 2);
    assert_eq!(div_trunc(-6, 3), -2);
    assert_eq!(div_trunc(0, 5), 0);
}

#[test]
fn speed_law_exact_values() {
    // 4000 - a * (108e6 + a^2) / (108e6 + 9 a^2), a = size - 5000
    assert_eq!(speed_of_size(1000), 5968);
    assert_eq!(speed_of_size(2000), 5857);
    assert_eq!(speed_of_size(4000), 4931);
    assert_eq!(speed_of_size(5000), 4000);
    assert_eq!(speed_of_size(10000), 2004);
    // saturated tail: eleven units and beyond pin the floor of the band
    assert_eq!(speed_of_size(11000), 2000);
    assert_eq!(speed_of_size(400_000), 2000);
}

#[test]
fn speed_law_monotone_and_in_band() {
    let sizes = [
        500i64, 900, 1000, 1500, 2000, 2500, 3000, 4000, 5000, 6000, 7000, 8000, 9000, 10000,
        10500, 11000, 20000, 100_000, 512_000,
    ];
    let mut prev = i64::MAX;
    for &s in sizes.iter() {
        let f = speed_of_size(s);
        assert!(2000 <= f && f <= 6000);
        assert!(f <= prev, "speed law must not increase with size");
        prev = f;
    }
    // strictly smaller across the asteroid size band
    assert!(speed_of_size(1000) > speed_of_size(2000));
    assert!(speed_of_size(2000) > speed_of_size(4000));
    assert!(speed_of_size(4000) > speed_of_size(10000));
}

#[test]
fn size_classes_bucket_by_rounding() {
    assert_eq!(class_of_size(1000), SizeClass::Xs);
    assert_eq!(class_of_size(1500), SizeClass::Xs);
    assert_eq!(class_of_size(2999), SizeClass::Xs);
    assert_eq!(class_of_size(3000), SizeClass::S);
    assert_eq!(class_of_size(8999), SizeClass::S);
    assert_eq!(class_of_size(9000), SizeClass::M);
    assert_eq!(class_of_size(10000), SizeClass::M);
    assert_eq!(class_of_size(18000), SizeClass::L);
    assert_eq!(class_of_size(24000), SizeClass::Xl);
    assert_eq!(class_of_size(27000), SizeClass::Xxl);
    assert_eq!(class_of_size(32999), SizeClass::Xxl);
}

#[test]
fn score_table_exact() {
    assert_eq!(get_score("XS"), 50);
    assert_eq!(get_score("S"), 30);
    assert_eq!(get_score("M"), 10);
    assert_eq!(get_score("L"), 5);
    assert_eq!(get_score("XL"), 1);
    assert_eq!(get_score("XXL"), 1);
    assert_eq!(get_score("unknown"), 0);
    assert_eq!(get_score(""), 0);
}

#[test]
fn score_by_name_matches_class_table() {
    let classes = [
        SizeClass::Xs,
        SizeClass::S,
        SizeClass::M,
        SizeClass::L,
        SizeClass::Xl,
        SizeClass::Xxl,
    ];
    for &c in classes.iter() {
        assert_eq!(get_score(class_name(c)), score_of_class(c));
    }
}

#[test]
fn truncated_norm_never_leaves_range() {
    for _ in 0..200 {
        let v = sample_truncated_norm(5500, 3000, 1000, 10000);
        assert!(1000 <= v && v <= 10000);
    }
}

#[test]
fn truncated_norm_degenerate_range_returns_mean() {
    for _ in 0..20 {
        assert_eq!(sample_truncated_norm(4200, 3000, 4200, 4200), 4200);
    }
}

#[test]
fn truncated_norm_tight_range() {
    for _ in 0..50 {
        let v = sample_truncated_norm(5000, 3000, 4999, 5001);
        assert!(4999 <= v && v <= 5001);
    }
}

#[test]
fn random_unit_vectors_are_near_unit() {
    for _ in 0..100 {
        let v = random_unit_scaled();
        let n2 = v.x * v.x + v.y * v.y + v.z * v.z;
        assert!(990_000 <= n2 && n2 <= 1_011_000);
    }
}

#[test]
fn circle_points_stay_on_circle() {
    for _ in 0..100 {
        let (c, s) = circle_point();
        let n2 = c * c + s * s;
        assert!(1_000_000 - 2001 <= n2 && n2 <= 1_000_000);
    }
}

#[test]
fn normalize_milli_scales_to_unit_length() {
    let v = Vec3x { x: 3000, y: 4000, z: 0 };
    let u = normalize_milli(v);
    assert_eq!(u.x, 600);
    assert_eq!(u.y, 800);
    assert_eq!(u.z, 0);
    let w = Vec3x { x: -20_000, y: 0, z: 0 };
    let uw = normalize_milli(w);
    assert_eq!(uw.x, -1000);
    assert_eq!(uw.y, 0);
    assert_eq!(uw.z, 0);
}

#[test]
fn scope_paths_join_with_slashes() {
    let empty: Vec<String> = Vec::new();
    assert_eq!(scope_path(&empty), "");
    let one = vec![String::from("game")];
    assert_eq!(scope_path(&one), "game");
    let three = vec![
        String::from("game"),
        String::from("asteroids"),
        String::from("max_number"),
    ];
    assert_eq!(scope_path(&three), "game/asteroids/max_number");
}
