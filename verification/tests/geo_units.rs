//! Exact unit values for the fixed-point geodesy engine.

use zkrun::geo::deg_to_rad_q32;
use zkrun::geo::distance_segment_meters;
use zkrun::geo::isqrt_u128;
use zkrun::geo::q32_cos;
use zkrun::geo::q32_div;
use zkrun::geo::q32_mul;
use zkrun::geo::wrap_pi_q32;
use zkrun::geo::PI_Q32;
use zkrun::geo::Q;
use zkrun::geo::TWO_PI_Q32;

#[test]
fn deg_to_rad_exact() {
    assert_eq!(deg_to_rad_q32(0), 0);
    assert_eq!(deg_to_rad_q32(1_000_000), 74_961_320);
    assert_eq!(deg_to_rad_q32(-1_000_000), -74_961_320);
}

#[test]
fn q32_mul_exact() {
    assert_eq!(q32_mul(3 * Q, 2 * Q), 6 * Q);
    assert_eq!(q32_mul(Q, Q), Q);
    assert_eq!(q32_mul(-3 * Q, 2 * Q), -6 * Q);
    assert_eq!(q32_mul(1, 1), 0);
}

#[test]
fn q32_div_exact() {
    assert_eq!(q32_div(6 * Q, 3 * Q), 2 * Q);
    assert_eq!(q32_div(Q, 2 * Q), Q / 2);
    assert_eq!(q32_div(-6 * Q, 3 * Q), -2 * Q);
}

#[test]
fn wrap_exact() {
    assert_eq!(wrap_pi_q32(0), 0);
    assert_eq!(wrap_pi_q32(PI_Q32), PI_Q32);
    assert_eq!(wrap_pi_q32(-PI_Q32), -PI_Q32);
    assert_eq!(wrap_pi_q32(PI_Q32 + 1), -PI_Q32);
    assert_eq!(wrap_pi_q32(-PI_Q32 - 1), PI_Q32);
    assert_eq!(wrap_pi_q32(TWO_PI_Q32), TWO_PI_Q32 - TWO_PI_Q32);
    assert_eq!(wrap_pi_q32(10 * TWO_PI_Q32 + 5), 5);
}

#[test]
fn cos_exact() {
    assert_eq!(q32_cos(0), Q);
    assert_eq!(q32_cos(PI_Q32), -5_202_720_844);
    assert_eq!(q32_cos(deg_to_rad_q32(60_000_000)), 2_147_331_458);
}

#[test]
fn isqrt_exact() {
    assert_eq!(isqrt_u128(0), 0);
    assert_eq!(isqrt_u128(1), 1);
    assert_eq!(isqrt_u128(3), 1);
    assert_eq!(isqrt_u128(4), 2);
    assert_eq!(isqrt_u128(15), 3);
    assert_eq!(isqrt_u128(16), 4);
    assert_eq!(isqrt_u128(1_000_000), 1000);
    assert_eq!(isqrt_u128(u128::MAX), (1u128 << 64) - 1);
}

#[test]
fn distance_exact() {
    assert_eq!(distance_segment_meters(0, 0, 0, 0), 0);
    assert_eq!(distance_segment_meters(0, 0, 45_000, 0), 5003);
    assert_eq!(distance_segment_meters(45_000, 0, 0, 0), 5003);
    assert_eq!(distance_segment_meters(0, 0, 44_964, 0), 4999);
    assert_eq!(distance_segment_meters(0, 0, 44_972, 0), 5000);
    assert_eq!(distance_segment_meters(60_000_000, 0, 60_000_000, 45_000), 2501);
}
