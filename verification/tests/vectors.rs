use solar_raytracer::fixed::{clamp01, isqrt, lerp, mul_div, ONE};
use solar_raytracer::geom::{vec3, Vec3};

#[test]
fn clamp01_limits_both_sides() {
    assert_eq!(clamp01(-5), 0);
    assert_eq!(clamp01(0), 0);
    assert_eq!(clamp01(250_000), 250_000);
    assert_eq!(clamp01(ONE), ONE);
    assert_eq!(clamp01(ONE + 1), ONE);
}

#[test]
fn lerp_reaches_both_ends() {
    assert_eq!(lerp(10 * ONE, 30 * ONE, 0), 10 * ONE);
    assert_eq!(lerp(10 * ONE, 30 * ONE, ONE), 30 * ONE);
    assert_eq!(lerp(10 * ONE, 30 * ONE, 250_000), 15 * ONE);
    assert_eq!(lerp(30 * ONE, 10 * ONE, 250_000), 25 * ONE);
}

#[test]
fn mul_div_rounds_toward_zero() {
    assert_eq!(mul_div(7, 1, 2), 3);
    assert_eq!(mul_div(-7, 1, 2), -3);
    assert_eq!(mul_div(i64::MAX, 4, 8), i64::MAX / 2);
}

#[test]
fn isqrt_rounds_down() {
    assert_eq!(isqrt(0), 0);
    assert_eq!(isqrt(1), 1);
    assert_eq!(isqrt(3), 1);
    assert_eq!(isqrt(4), 2);
    assert_eq!(isqrt(99), 9);
    assert_eq!(isqrt(1_000_000_000_000), 1_000_000);
    assert_eq!(isqrt(u128::MAX), u64::MAX);
}

#[test]
fn vector_arithmetic() {
    let a = vec3(1, 2, 3);
    let b = vec3(10, 20, 30);
    assert_eq!(a.plus(b), Vec3 { x: 11, y: 22, z: 33 });
    assert_eq!(b.minus(a), Vec3 { x: 9, y: 18, z: 27 });
    assert_eq!(a.negated(), Vec3 { x: -1, y: -2, z: -3 });
    assert_eq!(a.dot(b), 140);
    assert_eq!(b.scaled(ONE / 2), Vec3 { x: 5, y: 10, z: 15 });
}

#[test]
fn norm_of_a_pythagorean_triple() {
    assert_eq!(vec3(3 * ONE, 4 * ONE, 0).norm(), 5 * ONE as u64);
    assert_eq!(vec3(0, 0, 0).norm(), 0);
}

#[test]
fn normalize_gives_unit_length() {
    assert_eq!(vec3(0, 0, 7 * ONE).normalize(), vec3(0, 0, ONE));
    assert_eq!(vec3(3 * ONE, -4 * ONE, 0).normalize(), vec3(600_000, -800_000, 0));
}

#[test]
fn normalize_leaves_the_zero_vector() {
    assert_eq!(vec3(0, 0, 0).normalize(), vec3(0, 0, 0));
}

#[test]
fn normalize_accepts_extreme_components() {
    let v = vec3(i64::MIN, i64::MAX, i64::MIN).normalize();
    assert!(v.x <= -577_000 && v.x >= -578_000);
    assert!(v.y >= 577_000 && v.y <= 578_000);
}
