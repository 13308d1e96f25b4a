use dogfight::fixed::{abs_i64, clamp_i64, div_trunc_i64, fp_mul_i64, sqrt_ceil_u64, SCALE};
use dogfight::trig::{angle_add, fp_cos, fp_sin, HALF_PI_FP, PI_FP, TAU_FP};

#[test]
fn clamp_inside_and_outside() {
    assert_eq!(clamp_i64(5, -10, 10), 5);
    assert_eq!(clamp_i64(-11, -10, 10), -10);
    assert_eq!(clamp_i64(11, -10, 10), 10);
}

#[test]
fn abs_of_both_signs() {
    assert_eq!(abs_i64(7), 7);
    assert_eq!(abs_i64(-7), 7);
    assert_eq!(abs_i64(0), 0);
}

#[test]
fn fixed_point_product_truncates_toward_zero() {
    assert_eq!(fp_mul_i64(1500, 1500), 2250);
    assert_eq!(fp_mul_i64(-1500, 1500), -2250);
    assert_eq!(fp_mul_i64(10_000, SCALE), 10_000);
    assert_eq!(fp_mul_i64(1, 1999), 1);
    assert_eq!(fp_mul_i64(-1, 1999), -1);
    assert_eq!(fp_mul_i64(0, 123_456), 0);
}

#[test]
fn truncating_division_rounds_toward_zero() {
    assert_eq!(div_trunc_i64(7, 2), 3);
    assert_eq!(div_trunc_i64(-7, 2), -3);
    assert_eq!(div_trunc_i64(6, 3), 2);
    assert_eq!(div_trunc_i64(-6, 3), -2);
}

#[test]
fn sqrt_ceil_small_values() {
    assert_eq!(sqrt_ceil_u64(0), 0);
    assert_eq!(sqrt_ceil_u64(1), 1);
    assert_eq!(sqrt_ceil_u64(2), 2);
    assert_eq!(sqrt_ceil_u64(4), 2);
    assert_eq!(sqrt_ceil_u64(5), 3);
}

#[test]
fn sqrt_ceil_of_velocity_magnitudes() {
    assert_eq!(sqrt_ceil_u64(150_000u64 * 150_000u64), 150_000);
    assert_eq!(sqrt_ceil_u64(150_000u64 * 150_000u64 - 1), 150_000);
    assert_eq!(sqrt_ceil_u64(150_000u64 * 150_000u64 + 1), 150_001);
}

#[test]
fn sine_and_cosine_at_the_axes() {
    assert_eq!(fp_sin(0), 0);
    assert_eq!(fp_sin(HALF_PI_FP), SCALE);
    assert_eq!(fp_sin(PI_FP), 0);
    assert_eq!(fp_cos(0), SCALE);
    assert_eq!(fp_cos(PI_FP), -SCALE);
}

#[test]
fn sine_signs_by_quadrant() {
    assert!(fp_sin(1000) > 0);
    assert!(fp_sin(2500) > 0);
    assert!(fp_sin(4000) < 0);
    assert!(fp_sin(6000) < 0);
    assert!(fp_cos(1000) > 0);
    assert!(fp_cos(2500) < 0);
}

#[test]
fn cosine_near_half_turn() {
    let c = fp_cos(3140);
    assert!((-SCALE..=-990).contains(&c));
}

#[test]
fn angle_addition_wraps_into_one_turn() {
    assert_eq!(angle_add(0, 50), 50);
    assert_eq!(angle_add(0, -50), TAU_FP - 50);
    assert_eq!(angle_add(TAU_FP - 10, 50), 40);
    assert_eq!(angle_add(0, -TAU_FP), 0);
}
