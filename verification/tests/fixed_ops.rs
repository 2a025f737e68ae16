//! Exact values of the fixed-point arithmetic layer.

use nbody::fixed::{add_fix, cbrt_fix, clamp_fix, div_fix, icbrt, isqrt, mul_fix, sub_fix, LIMIT};
use nbody::vec3::{vadd, vlen, vscale, vsub, Vec3};

#[test]
fn multiplication_rescales() {
    // 2.0 * 3.5 == 7.0
    assert_eq!(mul_fix(2_000_000, 3_500_000), 7_000_000);
    // 0.5 * 0.5 == 0.25
    assert_eq!(mul_fix(500_000, 500_000), 250_000);
    assert_eq!(mul_fix(0, 123_456), 0);
}

#[test]
fn multiplication_truncates_toward_zero() {
    // -3e-6 * 0.5 == -1.5e-6, truncated to -1e-6 (not floored to -2e-6)
    assert_eq!(mul_fix(-3, 500_000), -1);
    assert_eq!(mul_fix(3, 500_000), 1);
}

#[test]
fn multiplication_saturates() {
    assert_eq!(mul_fix(100_000_000_000_000_000, 100_000_000_000_000_000), LIMIT);
    assert_eq!(mul_fix(-100_000_000_000_000_000, 100_000_000_000_000_000), -LIMIT);
}

#[test]
fn division_rescales() {
    // 7.0 / 2.0 == 3.5
    assert_eq!(div_fix(7_000_000, 2_000_000), 3_500_000);
    // -1.0 / 3.0 truncates toward zero
    assert_eq!(div_fix(-1_000_000, 3_000_000), -333_333);
}

#[test]
fn addition_and_subtraction_saturate() {
    assert_eq!(add_fix(1_000_000, 2_000_000), 3_000_000);
    assert_eq!(add_fix(LIMIT, LIMIT), LIMIT);
    assert_eq!(sub_fix(-LIMIT, LIMIT), -LIMIT);
    assert_eq!(sub_fix(5, 7), -2);
}

#[test]
fn clamp_saturates_both_sides() {
    assert_eq!(clamp_fix(LIMIT + 1), LIMIT);
    assert_eq!(clamp_fix(-LIMIT - 1), -LIMIT);
    assert_eq!(clamp_fix(42), 42);
}

#[test]
fn integer_square_root_brackets() {
    assert_eq!(isqrt(0), 0);
    assert_eq!(isqrt(1), 1);
    assert_eq!(isqrt(99), 9);
    assert_eq!(isqrt(100), 10);
    assert_eq!(isqrt(100_000_000_000_000), 10_000_000);
    assert_eq!(isqrt(99_999_999_999_999), 9_999_999);
}

#[test]
fn integer_cube_root_brackets() {
    assert_eq!(icbrt(0), 0);
    assert_eq!(icbrt(26), 2);
    assert_eq!(icbrt(27), 3);
    assert_eq!(icbrt(1_000_000_000_000_000_000_000_000_000), 1_000_000_000);
}

#[test]
fn fixed_cube_root() {
    // cbrt(1.0) == 1.0, cbrt(8.0) == 2.0
    assert_eq!(cbrt_fix(1_000_000), 1_000_000);
    assert_eq!(cbrt_fix(8_000_000), 2_000_000);
    // cbrt(0.2) in fixed point, rounded down
    let c = cbrt_fix(200_000);
    assert!(c > 580_000 && c < 590_000);
}

#[test]
fn vector_length_is_euclidean() {
    // a 3-4-5 triangle
    let v = Vec3::new(3_000_000, 4_000_000, 0);
    assert_eq!(vlen(v), 5_000_000);
    assert_eq!(vlen(Vec3::zero()), 0);
}

#[test]
fn vector_ops_are_componentwise() {
    let a = Vec3::new(1, 2, 3);
    let b = Vec3::new(10, 20, 30);
    assert_eq!(vadd(a, b), Vec3::new(11, 22, 33));
    assert_eq!(vsub(b, a), Vec3::new(9, 18, 27));
    assert_eq!(vscale(Vec3::new(2_000_000, -4_000_000, 0), 500_000), Vec3::new(1_000_000, -2_000_000, 0));
}
