//! Exact values of the fixed-point arithmetic helpers.

use pong::fixed::{abs, clamp, div_tz, fdiv, fmul, isqrt, isqrt_ceil, sgn};

#[test]
fn sign_counts_zero_as_positive() {
    assert_eq!(sgn(0), 1);
    assert_eq!(sgn(37), 1);
    assert_eq!(sgn(-37), -1);
}

#[test]
fn absolute_value() {
    assert_eq!(abs(0), 0);
    assert_eq!(abs(1234), 1234);
    assert_eq!(abs(-1234), 1234);
}

#[test]
fn clamp_to_symmetric_range() {
    assert_eq!(clamp(500, 1000), 500);
    assert_eq!(clamp(1500, 1000), 1000);
    assert_eq!(clamp(-1500, 1000), -1000);
    assert_eq!(clamp(-1000, 1000), -1000);
}

#[test]
fn division_rounds_toward_zero() {
    assert_eq!(div_tz(7, 2), 3);
    assert_eq!(div_tz(-7, 2), -3);
    assert_eq!(div_tz(6, 3), 2);
    assert_eq!(div_tz(-6, 3), -2);
}

#[test]
fn fixed_product_scales_down() {
    // 1.5 * 2.0 = 3.0 in milliunits.
    assert_eq!(fmul(1500, 2000), 3000);
    // 0.333 * 0.5 = 0.1665, truncated toward zero.
    assert_eq!(fmul(333, 500), 166);
    assert_eq!(fmul(-333, 500), -166);
}

#[test]
fn fixed_quotient_scales_up() {
    // 3.0 / 2.0 = 1.5 in milliunits.
    assert_eq!(fdiv(3000, 2000), 1500);
    assert_eq!(fdiv(1000, 3000), 333);
    assert_eq!(fdiv(-1000, 3000), -333);
    assert_eq!(fdiv(1000, -3000), -333);
}

#[test]
fn integer_square_roots() {
    assert_eq!(isqrt(0), 0);
    assert_eq!(isqrt(1), 1);
    assert_eq!(isqrt(999_999), 999);
    assert_eq!(isqrt(1_000_000), 1000);
    assert_eq!(isqrt(2_000_000), 1414);
    assert_eq!(isqrt_ceil(2_000_000), 1415);
    assert_eq!(isqrt_ceil(1_000_000), 1000);
    assert_eq!(isqrt(450_000_000_000), 670_820);
}
