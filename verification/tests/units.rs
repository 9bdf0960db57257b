//! Unit tests for the fixed-point arithmetic layer.

use gas_predictor::fixed::{div_count, fp_add, fp_div, fp_mul, fp_sqrt, fp_sub, isqrt64, BOUND};

#[test]
fn fp_add_saturates_at_bound() {
    assert_eq!(fp_add(BOUND, BOUND), BOUND);
    assert_eq!(fp_add(-BOUND, -BOUND), -BOUND);
    assert_eq!(fp_add(1_000_000, 2_000_000), 3_000_000);
}

#[test]
fn fp_sub_basic() {
    assert_eq!(fp_sub(3_000_000, 5_000_000), -2_000_000);
    assert_eq!(fp_sub(-BOUND, BOUND), -BOUND);
}

#[test]
fn fp_mul_is_scaled_product() {
    // 2.0 * 3.5 == 7.0
    assert_eq!(fp_mul(2_000_000, 3_500_000), 7_000_000);
    // (-1.5) * 1e-6 truncates toward zero: -1.5 micro-units -> -1
    assert_eq!(fp_mul(-1_500_000, 1), -1);
    assert_eq!(fp_mul(0, 123_456), 0);
}

#[test]
fn fp_div_is_scaled_quotient() {
    // 7.0 / 2.0 == 3.5
    assert_eq!(fp_div(7_000_000, 2_000_000), 3_500_000);
    // (-1.0) / 3.0 truncates toward zero
    assert_eq!(fp_div(-1_000_000, 3_000_000), -333_333);
}

#[test]
fn div_count_truncates_toward_zero() {
    assert_eq!(div_count(-7, 2), -3);
    assert_eq!(div_count(7, 2), 3);
}

#[test]
fn isqrt_exact_values() {
    assert_eq!(isqrt64(0), 0);
    assert_eq!(isqrt64(10), 3);
    assert_eq!(isqrt64(16), 4);
    assert_eq!(isqrt64(u64::MAX), 4_294_967_295);
}

#[test]
fn fp_sqrt_exact_values() {
    // sqrt(4.0) == 2.0
    assert_eq!(fp_sqrt(4_000_000), 2_000_000);
    // sqrt(2.0) ~= 1.414213
    assert_eq!(fp_sqrt(2_000_000), 1_414_213);
    assert_eq!(fp_sqrt(0), 0);
}
