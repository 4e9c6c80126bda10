//! Q32.32 fixed-point geodesy primitives.
//!
//! Every quantity named `..._q32` is a fixed-point number: the integer `v`
//! stands for the real number `v / 2^32`. All divisions truncate toward
//! zero, exactly as the hardware does, so that every result is reproduced
//! bit for bit on any platform.

use vstd::prelude::*;
use vstd::math::abs;

verus! {

/// Mean Earth radius in meters.
pub const EARTH_RADIUS_M: i64 = 6_371_000;

/// The Q32.32 scale: an integer `v` stands for `v / Q`.
pub const Q: i128 = 0x1_0000_0000;

/// `pi` in Q32.32, i.e. the integer part of `pi * 2^32`.
pub const PI_Q32: i128 = 13_493_037_704;

/// `2 * pi` in Q32.32, i.e. the integer part of `2 * pi * 2^32`.
pub const TWO_PI_Q32: i128 = 26_986_075_409;

/// Truncating (round-toward-zero) integer division, the semantics of `/`
/// on the machine's signed integers. Unspecified for `b == 0`.
pub open spec fn div_t(a: int, b: int) -> int {
    if (a < 0) != (b < 0) {
        -((abs(a) / abs(b)) as int)
    } else {
        (abs(a) / abs(b)) as int
    }
}

/// Bounds of truncating division: the quotient never exceeds the dividend
/// in magnitude, and shrinks strictly once the divisor is at least 2.
pub proof fn lemma_div_t_magnitude(a: int, b: int)
    requires
        b != 0,
    ensures
        abs(div_t(a, b)) <= abs(a),
        b == 1 ==> div_t(a, b) == a,
        abs(b) >= 2 && a != 0 ==> abs(div_t(a, b)) < abs(a),
{
    let m = abs(a) as int;
    let n = abs(b) as int;
    vstd::arithmetic::div_mod::lemma_div_basics(m);
    vstd::arithmetic::div_mod::lemma_div_nonincreasing(m, n);
    if n >= 2 && m > 0 {
        vstd::arithmetic::div_mod::lemma_div_decreases(m, n);
    }
}

/// Truncating division on `i128`, total on every pair its machine
/// counterpart accepts.
fn div_i128(a: i128, b: i128) -> (r: i128)
    requires
        b != 0,
        !(a == i128::MIN && b == -1),
    ensures
        r == div_t(a as int, b as int),
{
    proof {
        lemma_div_t_magnitude(a as int, b as int);
    }
    a.checked_div(b).unwrap()
}

/// Magnitude of a truncated quotient, from a magnitude bound on the dividend.
pub proof fn lemma_div_t_bound(a: int, b: int, m: int)
    requires
        b >= 1,
        abs(a) <= m,
    ensures
        abs(div_t(a, b)) <= m / b,
{
    vstd::arithmetic::div_mod::lemma_div_basics_4(abs(a) as int, b);
    vstd::arithmetic::div_mod::lemma_div_is_ordered(abs(a) as int, m, b);
}

/// Magnitude of a product, from magnitude bounds on both factors.
pub proof fn lemma_mul_abs_bound(a: int, b: int, ma: int, mb: int)
    requires
        abs(a) <= ma,
        abs(b) <= mb,
    ensures
        abs(a * b) <= ma * mb,
{
    assert(abs(a * b) <= ma * mb) by (nonlinear_arith)
        requires
            abs(a) <= ma,
            abs(b) <= mb,
            abs(a) == if a < 0 { -a } else { a },
            abs(b) == if b < 0 { -b } else { b },
            abs(a * b) == if a * b < 0 { -(a * b) } else { a * b },
    {}
}

/// `q32_mul` as a mathematical function: the Q32.32 product of `a` and `b`.
pub open spec fn q32_mul_s(a: int, b: int) -> int {
    div_t(a * b, Q as int)
}

/// `q32_div` as a mathematical function: the Q32.32 quotient of `a` by `b`.
pub open spec fn q32_div_s(a: int, b: int) -> int {
    div_t(a * (Q as int), b)
}

/// `deg_to_rad_q32` as a mathematical function: micro-degrees to Q32.32
/// radians, `deg_micro / 10^6 * (pi / 180)`, truncating at each step.
pub open spec fn deg_to_rad_s(deg_micro: int) -> int {
    div_t(div_t(deg_micro * (Q as int), 1_000_000) * (PI_Q32 as int), 180 * (Q as int))
}

/// Q32.32 product: `(a * b) / 2^32`, truncating.
pub fn q32_mul(a: i128, b: i128) -> (r: i128)
    requires
        i128::MIN <= a * b <= i128::MAX,
    ensures
        r == q32_mul_s(a as int, b as int),
{
    div_i128(a * b, Q)
}

/// Q32.32 quotient: `(a * 2^32) / b`, truncating.
pub fn q32_div(a: i128, b: i128) -> (r: i128)
    requires
        b != 0,
        i128::MIN <= a * (Q as int) <= i128::MAX,
        !(a * (Q as int) == i128::MIN && b == -1),
    ensures
        r == q32_div_s(a as int, b as int),
{
    div_i128(a * Q, b)
}

/// Converts a latitude or longitude in micro-degrees to Q32.32 radians.
/// The result never exceeds 40 radians in magnitude.
pub fn deg_to_rad_q32(deg_micro: i32) -> (r: i128)
    ensures
        r == deg_to_rad_s(deg_micro as int),
        abs(r as int) <= 40 * (Q as int),
{
    let deg_num: i128 = deg_micro as i128;
    proof {
        lemma_mul_abs_bound(deg_num as int, Q as int, 0x8000_0000, Q as int);
        lemma_div_t_bound(deg_num * (Q as int), 1_000_000, 0x8000_0000 * (Q as int));
        lemma_div_t_magnitude(deg_num * (Q as int), 1_000_000);
    }
    let deg_q32: i128 = div_i128(deg_num * Q, 1_000_000);
    proof {
        assert(abs(deg_q32 as int) <= 9_223_372_036_854);
        lemma_mul_abs_bound(deg_q32 as int, PI_Q32 as int, 9_223_372_036_854, PI_Q32 as int);
        lemma_div_t_bound(
            deg_q32 * (PI_Q32 as int),
            180 * (Q as int),
            9_223_372_036_854 * (PI_Q32 as int),
        );
        lemma_div_t_magnitude(deg_q32 * (PI_Q32 as int), 180 * (Q as int));
    }
    div_i128(deg_q32 * PI_Q32, 180 * Q)
}

/// `wrap_pi_q32` as a mathematical function: shifts by `2*pi` until the
/// value lies in `[-pi, pi]` (in Q32.32).
pub open spec fn wrap_pi_s(x: int) -> int
    decreases abs(x),
{
    if x > PI_Q32 as int {
        wrap_pi_s(x - TWO_PI_Q32 as int)
    } else if x < -(PI_Q32 as int) {
        wrap_pi_s(x + TWO_PI_Q32 as int)
    } else {
        x
    }
}

/// Wrapping is faithful: the result lies in `[-pi, pi]` and differs from
/// the argument by an exact multiple of `2*pi` (in Q32.32).
pub proof fn lemma_wrap_pi_congruent(x: int)
    ensures
        -(PI_Q32 as int) <= wrap_pi_s(x) <= PI_Q32 as int,
        (x - wrap_pi_s(x)) % (TWO_PI_Q32 as int) == 0,
    decreases abs(x),
{
    if x > PI_Q32 as int {
        lemma_wrap_pi_congruent(x - TWO_PI_Q32 as int);
        assert((x - wrap_pi_s(x)) % (TWO_PI_Q32 as int) == 0) by {
            vstd::arithmetic::div_mod::lemma_add_mod_noop(
                x - TWO_PI_Q32 as int - wrap_pi_s(x),
                TWO_PI_Q32 as int,
                TWO_PI_Q32 as int,
            );
            vstd::arithmetic::div_mod::lemma_mod_self_0(TWO_PI_Q32 as int);
        }
    } else if x < -(PI_Q32 as int) {
        lemma_wrap_pi_congruent(x + TWO_PI_Q32 as int);
        assert((x - wrap_pi_s(x)) % (TWO_PI_Q32 as int) == 0) by {
            vstd::arithmetic::div_mod::lemma_sub_mod_noop(
                x + TWO_PI_Q32 as int - wrap_pi_s(x),
                TWO_PI_Q32 as int,
                TWO_PI_Q32 as int,
            );
            vstd::arithmetic::div_mod::lemma_mod_self_0(TWO_PI_Q32 as int);
        }
    } else {
        vstd::arithmetic::div_mod::lemma_small_mod(0, TWO_PI_Q32 as nat);
    }
}

/// Reduces a Q32.32 angle into `[-pi, pi]` by repeatedly adding or
/// subtracting `2*pi`.
pub fn wrap_pi_q32(x: i128) -> (r: i128)
    ensures
        r == wrap_pi_s(x as int),
        -(PI_Q32 as int) <= r <= PI_Q32 as int,
{
    let mut y = x;
    while y > PI_Q32
        invariant
            wrap_pi_s(y as int) == wrap_pi_s(x as int),
        decreases y + PI_Q32 as int,
    {
        y = y - TWO_PI_Q32;
    }
    while y < -PI_Q32
        invariant
            wrap_pi_s(y as int) == wrap_pi_s(x as int),
            y <= PI_Q32 as int,
        decreases PI_Q32 as int - y,
    {
        y = y + TWO_PI_Q32;
    }
    y
}

/// The cosine polynomial `1 - w^2/2 + w^4/24 - w^6/720` evaluated in
/// Q32.32 with truncation at every step.
pub open spec fn cos_poly_s(w: int) -> int {
    let x2 = q32_mul_s(w, w);
    let x4 = q32_mul_s(x2, x2);
    let x6 = q32_mul_s(x4, x2);
    (Q as int) - div_t(x2, 2) + div_t(x4, 24) - div_t(x6, 720)
}

/// `q32_cos` as a mathematical function: the polynomial applied to the
/// wrapped angle.
pub open spec fn q32_cos_s(x: int) -> int {
    cos_poly_s(wrap_pi_s(x))
}

/// Magnitude bound for a Q32.32 product, from bounds on the factors.
pub proof fn lemma_q32_mul_bound(a: int, b: int, ma: int, mb: int)
    requires
        abs(a) <= ma,
        abs(b) <= mb,
    ensures
        abs(a * b) <= ma * mb,
        abs(q32_mul_s(a, b)) <= (ma * mb) / (Q as int),
{
    lemma_mul_abs_bound(a, b, ma, mb);
    lemma_div_t_bound(a * b, Q as int, ma * mb);
}

/// A Q32.32 square is never negative.
pub proof fn lemma_q32_sq_nonneg(a: int)
    ensures
        q32_mul_s(a, a) >= 0,
        a * a >= 0,
{
    assert(a * a >= 0) by (nonlinear_arith);
    vstd::arithmetic::div_mod::lemma_div_basics_4(a * a, Q as int);
}

/// Bounded 4-term Taylor approximation of cosine on a Q32.32 angle,
/// wrapped into `[-pi, pi]` first. The result never exceeds 16 (in
/// Q32.32) in magnitude.
pub fn q32_cos(x: i128) -> (r: i128)
    ensures
        r == q32_cos_s(x as int),
        abs(r as int) <= 16 * (Q as int),
{
    let w = wrap_pi_q32(x);
    proof {
        lemma_q32_mul_bound(w as int, w as int, PI_Q32 as int, PI_Q32 as int);
        lemma_q32_sq_nonneg(w as int);
    }
    let x2 = q32_mul(w, w);
    proof {
        assert(abs(x2 as int) <= 42_389_628_123);
        lemma_q32_mul_bound(x2 as int, x2 as int, 42_389_628_123, 42_389_628_123);
        lemma_q32_sq_nonneg(x2 as int);
    }
    let x4 = q32_mul(x2, x2);
    proof {
        assert(abs(x4 as int) <= 418_368_860_242);
        lemma_q32_mul_bound(x4 as int, x2 as int, 418_368_860_242, 42_389_628_123);
        vstd::arithmetic::div_mod::lemma_div_basics_4(x4 as int * x2 as int, Q as int);
        assert(x4 as int * x2 as int >= 0) by (nonlinear_arith)
            requires
                x4 as int >= 0,
                x2 as int >= 0,
        {}
    }
    let x6 = q32_mul(x4, x2);
    proof {
        assert(abs(x6 as int) <= 4_129_135_143_920);
        lemma_div_t_bound(x2 as int, 2, 42_389_628_123);
        lemma_div_t_bound(x4 as int, 24, 418_368_860_242);
        lemma_div_t_bound(x6 as int, 720, 4_129_135_143_920);
    }
    let term1 = Q;
    let term2 = -div_i128(x2, 2);
    let term3 = div_i128(x4, 24);
    let term4 = -div_i128(x6, 720);
    term1 + term2 + term3 + term4
}

/// Whether `b` is a power of 4.
pub open spec fn is_pow4(b: int) -> bool
    decreases b,
{
    if b <= 0 {
        false
    } else if b == 1 {
        true
    } else {
        b % 4 == 0 && is_pow4(b / 4)
    }
}

/// Exact integer square root: the unique `r` with `r^2 <= x < (r+1)^2`,
/// computed by the binary digit-by-digit method.
pub fn isqrt_u128(x: u128) -> (r: u128)
    ensures
        r * r <= x,
        x < (r + 1) * (r + 1),
{
    if x == 0 {
        return 0;
    }
    let mut r: u128 = 0;
    let mut bit: u128 = 0x4000_0000_0000_0000_0000_0000_0000_0000;
    proof {
        reveal_with_fuel(is_pow4, 64);
        assert(is_pow4(0x4000_0000_0000_0000_0000_0000_0000_0000));
    }
    while bit > x
        invariant
            x >= 1,
            1 <= bit <= 0x4000_0000_0000_0000_0000_0000_0000_0000,
            is_pow4(bit as int),
            x < 4 * bit,
        decreases bit,
    {
        bit = bit / 4;
    }
    let mut n = x;
    let ghost mut a: int = 0;
    while bit != 0
        invariant
            a >= 0,
            n <= x,
            bit <= 0x4000_0000_0000_0000_0000_0000_0000_0000,
            bit != 0 ==> is_pow4(bit as int),
            bit != 0 ==> r == 4 * a * bit,
            bit != 0 ==> n == x - 4 * a * a * bit,
            bit != 0 ==> x < 4 * (a + 1) * (a + 1) * bit,
            bit != 0 && a >= 1 ==> bit <= 0x1000_0000_0000_0000_0000_0000_0000_0000,
            bit == 0 ==> r == a && a * a <= x && x < (a + 1) * (a + 1),
        decreases bit,
    {
        let ghost bi = bit as int;
        let ghost ai = a;
        proof {
            assert(4 * ai * ai * bi <= x);
            // r + bit stays below 2^128: either no digit has been set yet
            // and r is zero, or bit has shrunk at least once.
            if ai >= 1 {
                assert(ai * ai * bi < 0x4000_0000_0000_0000_0000_0000_0000_0000) by (nonlinear_arith)
                    requires
                        4 * ai * ai * bi <= x,
                        x <= 0xffff_ffff_ffff_ffff_ffff_ffff_ffff_ffff,
                {}
                assert((4 * ai * bi) * (4 * ai * bi) <= 16 * (ai * ai * bi) * bi)
                    by (nonlinear_arith)
                {}
                assert(16 * (ai * ai * bi) * bi
                    < 0x8000_0000_0000_0000_0000_0000_0000_0000 * 0x8000_0000_0000_0000_0000_0000_0000_0000)
                    by (nonlinear_arith)
                    requires
                        0 <= ai * ai * bi < 0x4000_0000_0000_0000_0000_0000_0000_0000,
                        0 < bi <= 0x1000_0000_0000_0000_0000_0000_0000_0000,
                {}
                assert(4 * ai * bi < 0x8000_0000_0000_0000_0000_0000_0000_0000) by (nonlinear_arith)
                    requires
                        (4 * ai * bi) * (4 * ai * bi)
                            < 0x8000_0000_0000_0000_0000_0000_0000_0000 * 0x8000_0000_0000_0000_0000_0000_0000_0000,
                        4 * ai * bi >= 0,
                {}
            } else {
                assert(r == 4 * ai * bi && ai == 0);
                assert(r == 0) by (nonlinear_arith)
                    requires
                        r == 4 * ai * bi,
                        ai == 0,
                {}
            }
            assert(r + bit <= u128::MAX);
            // r is an even multiple of bit, so halving it is exact.
            assert(r == 2 * (2 * (ai * bi))) by (nonlinear_arith)
                requires
                    r == 4 * ai * bi,
            {}
            vstd::arithmetic::div_mod::lemma_div_multiples_vanish(2 * (ai * bi), 2);
            assert(r / 2 == 2 * (ai * bi));
            assert(r / 2 == 2 * ai * bi) by (nonlinear_arith)
                requires
                    r / 2 == 2 * (ai * bi),
            {}
        }
        if n >= r + bit {
            n = n - (r + bit);
            r = (r / 2) + bit;
            proof {
                a = 2 * ai + 1;
                assert(r == 2 * ai * bi + bi);
                if bit == 1 {
                    assert(r == a && a * a <= x && x < (a + 1) * (a + 1)) by (nonlinear_arith)
                        requires
                            a == 2 * ai + 1,
                            bi == 1,
                            r == 2 * ai * bi + bi,
                            n == x - 4 * ai * ai * bi - (4 * ai * bi + bi),
                            n >= 0,
                            x < 4 * (ai + 1) * (ai + 1) * bi,
                    {}
                } else {
                    assert(bi % 4 == 0);
                    assert(r == 4 * a * (bi / 4) && n == x - 4 * a * a * (bi / 4) && x < 4 * (a
                        + 1) * (a + 1) * (bi / 4)) by (nonlinear_arith)
                        requires
                            a == 2 * ai + 1,
                            bi % 4 == 0,
                            bi >= 4,
                            r == 2 * ai * bi + bi,
                            n == x - 4 * ai * ai * bi - (4 * ai * bi + bi),
                            x < 4 * (ai + 1) * (ai + 1) * bi,
                    {}
                }
            }
        } else {
            r = r / 2;
            proof {
                a = 2 * ai;
                assert(r == 2 * ai * bi);
                if bit == 1 {
                    assert(r == a && a * a <= x && x < (a + 1) * (a + 1)) by (nonlinear_arith)
                        requires
                            a == 2 * ai,
                            bi == 1,
                            r == 2 * ai * bi,
                            x - 4 * ai * ai * bi < 4 * ai * bi + bi,
                            4 * ai * ai * bi <= x,
                    {}
                } else {
                    assert(bi % 4 == 0);
                    assert(r == 4 * a * (bi / 4) && n == x - 4 * a * a * (bi / 4) && x < 4 * (a
                        + 1) * (a + 1) * (bi / 4)) by (nonlinear_arith)
                        requires
                            a == 2 * ai,
                            bi % 4 == 0,
                            bi >= 4,
                            r == 2 * ai * bi,
                            n == x - 4 * ai * ai * bi,
                            x - 4 * ai * ai * bi < 4 * ai * bi + bi,
                    {}
                }
            }
        }
        bit = bit / 4;
    }
    r
}

/// The integer square root as a mathematical function: the unique
/// non-negative `r` with `r^2 <= x < (r+1)^2`.
pub open spec fn sqrt_floor(x: int) -> int {
    choose|r: int| 0 <= r && #[trigger] (r * r) <= x && x < (r + 1) * (r + 1)
}

/// Any `r` with `r^2 <= x < (r+1)^2` is `sqrt_floor(x)`: the floor square
/// root is unique.
pub proof fn lemma_sqrt_floor_unique(x: int, r: int)
    requires
        0 <= r,
        r * r <= x,
        x < (r + 1) * (r + 1),
    ensures
        r == sqrt_floor(x),
{
    assert(exists|w: int| 0 <= w && #[trigger] (w * w) <= x && x < (w + 1) * (w + 1)) by {
        assert(0 <= r && r * r <= x && x < (r + 1) * (r + 1));
    }
    let w = choose|w: int| 0 <= w && #[trigger] (w * w) <= x && x < (w + 1) * (w + 1);
    assert(w == r) by (nonlinear_arith)
        requires
            0 <= r,
            r * r <= x,
            x < (r + 1) * (r + 1),
            0 <= w,
            w * w <= x,
            x < (w + 1) * (w + 1),
    {}
}

/// `distance_segment_meters` as a mathematical function: the
/// equirectangular approximation between two coordinates given in
/// micro-degrees, in whole meters, floor-rounded at every step.
pub open spec fn distance_s(lat1: int, lon1: int, lat2: int, lon2: int) -> int {
    let phi1 = deg_to_rad_s(lat1);
    let phi2 = deg_to_rad_s(lat2);
    let lam1 = deg_to_rad_s(lon1);
    let lam2 = deg_to_rad_s(lon2);
    let dphi = phi2 - phi1;
    let dlam = lam2 - lam1;
    let lat_avg = div_t(phi1 + phi2, 2);
    let cos_lat = q32_cos_s(lat_avg);
    let xx = q32_mul_s(dlam, cos_lat);
    let x2 = q32_mul_s(xx, xx);
    let y2 = q32_mul_s(dphi, dphi);
    let sum = x2 + y2;
    let sum_u = if sum < 0 { 0 } else { sum };
    let root = sqrt_floor(sum_u * (Q as int));
    div_t((EARTH_RADIUS_M as int) * root, Q as int)
}

/// Equirectangular distance between two GPS coordinates in micro-degrees,
/// in whole meters (floor-rounded).
pub fn distance_segment_meters(lat1: i32, lon1: i32, lat2: i32, lon2: i32) -> (d: u64)
    ensures
        d == distance_s(lat1 as int, lon1 as int, lat2 as int, lon2 as int),
{
    let phi1 = deg_to_rad_q32(lat1);
    let phi2 = deg_to_rad_q32(lat2);
    let lam1 = deg_to_rad_q32(lon1);
    let lam2 = deg_to_rad_q32(lon2);
    let dphi = phi2 - phi1;
    let dlam = lam2 - lam1;
    proof {
        lemma_div_t_bound(phi1 as int + phi2 as int, 2, 80 * (Q as int));
    }
    let lat_avg = div_i128(phi1 + phi2, 2);
    let cos_lat = q32_cos(lat_avg);
    proof {
        lemma_q32_mul_bound(dlam as int, cos_lat as int, 80 * (Q as int), 16 * (Q as int));
    }
    let xx = q32_mul(dlam, cos_lat);
    proof {
        assert(abs(xx as int) <= 1280 * (Q as int) * (Q as int) / (Q as int));
        lemma_q32_mul_bound(xx as int, xx as int, 1280 * (Q as int), 1280 * (Q as int));
        lemma_q32_sq_nonneg(xx as int);
        lemma_q32_mul_bound(dphi as int, dphi as int, 80 * (Q as int), 80 * (Q as int));
        lemma_q32_sq_nonneg(dphi as int);
    }
    let x2 = q32_mul(xx, xx);
    let y2 = q32_mul(dphi, dphi);
    let sum = x2 + y2;
    let sum_u: u128 = if sum < 0 {
        0
    } else {
        sum as u128
    };
    proof {
        assert(sum_u as int * (Q as int) <= 1_644_800 * (Q as int) * (Q as int))
            by (nonlinear_arith)
            requires
                0 <= sum_u as int <= 1_644_800 * (Q as int),
                Q == 0x1_0000_0000,
        {}
    }
    let root_q32 = isqrt_u128(sum_u * (Q as u128));
    proof {
        lemma_sqrt_floor_unique(sum_u as int * (Q as int), root_q32 as int);
        assert(root_q32 as int <= 0x800_0000_0000) by (nonlinear_arith)
            requires
                (root_q32 as int) * (root_q32 as int) <= sum_u as int * (Q as int),
                sum_u as int * (Q as int) <= 1_644_800 * 0x1_0000_0000 * 0x1_0000_0000,
                root_q32 as int >= 0,
        {}
        assert((EARTH_RADIUS_M as int) * (root_q32 as int) <= 6_371_000 * 0x800_0000_0000)
            by (nonlinear_arith)
            requires
                0 <= root_q32 as int <= 0x800_0000_0000,
                EARTH_RADIUS_M == 6_371_000,
        {}
        vstd::arithmetic::div_mod::lemma_div_basics_4(
            (EARTH_RADIUS_M as int) * (root_q32 as int),
            Q as int,
        );
        lemma_div_t_bound(
            (EARTH_RADIUS_M as int) * (root_q32 as int),
            Q as int,
            6_371_000int * 0x800_0000_0000int,
        );
    }
    let meters = div_i128((EARTH_RADIUS_M as i128) * (root_q32 as i128), Q);
    if meters < 0 {
        0
    } else {
        meters as u64
    }
}

} // verus!
