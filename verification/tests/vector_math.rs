use asteroids_core::fixed::{isqrt, scale_mul_div, SCALE};
use asteroids_core::vec3::{clamp_magnitude, normalize_or_zero, target_direction, Vec3};

fn mag(v: Vec3) -> i64 {
    isqrt(v.x * v.x + v.y * v.y + v.z * v.z)
}

#[test]
fn isqrt_small_values() {
    assert_eq!(isqrt(0), 0);
    assert_eq!(isqrt(1), 1);
    assert_eq!(isqrt(2), 1);
    assert_eq!(isqrt(3), 1);
    assert_eq!(isqrt(4), 2);
    assert_eq!(isqrt(999_999), 999);
    assert_eq!(isqrt(1_000_000), 1000);
}

#[test]
fn isqrt_large_values() {
    assert_eq!(isqrt(2_000_000_000_000), 1_414_213);
    assert_eq!(isqrt(3_000_000_000_000_000_000), 1_732_050_807);
    assert_eq!(isqrt(i64::MAX), 3_037_000_499);
}

#[test]
fn magnitude_of_pythagorean_triple() {
    let v = Vec3::new(300_000, 400_000, 0);
    assert_eq!(mag(v), 500_000);
}

#[test]
fn scale_mul_div_rounds_toward_zero() {
    assert_eq!(scale_mul_div(7, 1, 2), 3);
    assert_eq!(scale_mul_div(-7, 1, 2), -3);
    assert_eq!(scale_mul_div(5, 3, 2), 7);
    assert_eq!(scale_mul_div(-5, 3, 2), -7);
}

#[test]
fn normalize_vertical_input_is_zero() {
    // no horizontal input collapses to zero, whatever z is
    assert_eq!(normalize_or_zero(Vec3::new(0, 0, 123_456)), Vec3::zero());
    assert_eq!(normalize_or_zero(Vec3::new(0, 0, -5)), Vec3::zero());
    assert_eq!(normalize_or_zero(Vec3::zero()), Vec3::zero());
}

#[test]
fn normalize_yields_unit_vector() {
    let r = normalize_or_zero(Vec3::new(300_000, 400_000, 0));
    assert_eq!(r, Vec3::new(600_000, 800_000, 0));
    assert_eq!(mag(r), SCALE);
}

#[test]
fn normalize_diagonal_input() {
    // the diagonal key combination: (1, 1, 0) before normalization
    let r = normalize_or_zero(Vec3::new(SCALE, SCALE, 0));
    assert_eq!(r, Vec3::new(707_107, 707_107, 0));
    assert_eq!(mag(r), SCALE);
}

#[test]
fn clamp_above_cap_lands_on_cap() {
    // magnitude 0.5 against a cap of 0.2
    let r = clamp_magnitude(Vec3::new(300_000, 400_000, 0), 200_000);
    assert_eq!(r, Vec3::new(120_000, 160_000, 0));
    assert_eq!(mag(r), 200_000);
}

#[test]
fn clamp_below_cap_is_identity() {
    let v = Vec3::new(100_000, -50_000, 20_000);
    assert_eq!(clamp_magnitude(v, 200_000), v);
}

#[test]
fn clamp_exactly_at_cap_is_identity() {
    // the comparison is strict: a vector exactly at the cap is untouched
    let v = Vec3::new(200_000, 0, 0);
    assert_eq!(clamp_magnitude(v, 200_000), v);
    let w = Vec3::new(120_000, 160_000, 0);
    assert_eq!(clamp_magnitude(w, 200_000), w);
}

#[test]
fn clamp_never_exceeds_cap_on_many_inputs() {
    let samples = [
        Vec3::new(1, 0, 0),
        Vec3::new(1, 1, 1),
        Vec3::new(-300_000, 400_000, 500_000),
        Vec3::new(1_000_000_000, -1_000_000_000, 1_000_000_000),
        Vec3::new(200_001, 0, 0),
        Vec3::new(0, 0, 999_999_999),
    ];
    for v in samples {
        let r = clamp_magnitude(v, 200_000);
        assert!(mag(r) <= 200_000, "clamp left magnitude {} for {:?}", mag(r), v);
    }
}

#[test]
fn target_direction_of_coincident_points_is_none() {
    let p = Vec3::new(5, 6, 7);
    assert_eq!(target_direction(p, p), None);
}

#[test]
fn target_direction_points_at_target() {
    let r = target_direction(Vec3::zero(), Vec3::new(300_000, 400_000, 0));
    assert_eq!(r, Some(Vec3::new(600_000, 800_000, 0)));
    // a pure-z offset still has a direction here, unlike the input normalizer
    let r = target_direction(Vec3::zero(), Vec3::new(0, 0, 250_000));
    assert_eq!(r, Some(Vec3::new(0, 0, SCALE)));
}

#[test]
fn clamp_lands_within_three_ticks_of_cap() {
    // vectors strictly above the cap land on it, at most three ticks short
    let samples = [
        Vec3::new(300_000, 400_000, 0),
        Vec3::new(200_001, 0, 0),
        Vec3::new(-987_654, 321_987, 555_555),
        Vec3::new(1_000_000_000, 1_000_000_000, -1_000_000_000),
        Vec3::new(144_000, 144_000, 17),
    ];
    for v in samples {
        let r = clamp_magnitude(v, 200_000);
        let m = mag(r);
        assert!((199_997..=200_000).contains(&m), "magnitude {} for {:?}", m, v);
    }
}

#[test]
fn normalize_lands_within_three_ticks_of_unit() {
    let samples = [
        Vec3::new(1_000_000, 1, 0),
        Vec3::new(-3_333_333, 7_777_777, 123),
        Vec3::new(999_999_999, -999_999_999, 999_999_999),
        Vec3::new(0, 1_000_000, -1_000_000),
    ];
    for v in samples {
        let r = normalize_or_zero(v);
        let m = mag(r);
        assert!((999_997..=1_000_000).contains(&m), "magnitude {} for {:?}", m, v);
    }
}
