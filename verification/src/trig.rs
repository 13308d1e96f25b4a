//! Angles and the sine/cosine the flight model steers by.
//!
//! An angle is a fixed-point scalar in thousandths of a radian, kept
//! normalized into `[0, TAU_FP)`. Sine is Bhaskara's rational approximation
//! on the half turn, mirrored with a sign flip on the second half; cosine is
//! the sine of the angle advanced by a quarter turn. The approximation is
//! exact at the axes that matter to the scenarios: `fp_cos(0) == SCALE` and
//! `fp_sin(HALF_PI_FP) == SCALE`.

use vstd::prelude::*;
use crate::fixed::SCALE;

verus! {

/// One full turn, in thousandths of a radian.
pub const TAU_FP: i64 = 6283;

/// Half a turn.
pub const PI_FP: i64 = 3142;

/// A quarter turn.
pub const HALF_PI_FP: i64 = 1571;

/// Three quarters of a turn: with `HALF_PI_FP` it bounds the upside-down band.
pub const THREE_HALF_PI_FP: i64 = 4712;

/// A normalized angle.
pub open spec fn is_angle(a: int) -> bool {
    0 <= a < TAU_FP
}

/// `s` brought back into `[0, TAU_FP)`, for `s` at most one turn outside.
pub open spec fn wrap_angle(s: int) -> int {
    if s < 0 {
        s + TAU_FP
    } else if s >= TAU_FP {
        s - TAU_FP
    } else {
        s
    }
}

/// Turn by `d` (positive is counterclockwise), keeping the angle normalized.
pub fn angle_add(a: i64, d: i64) -> (r: i64)
    requires
        is_angle(a as int),
        -TAU_FP <= d <= TAU_FP,
    ensures
        r == wrap_angle(a + d),
        is_angle(r as int),
{
    let s: i64 = a + d;
    if s < 0 {
        s + TAU_FP
    } else if s >= TAU_FP {
        s - TAU_FP
    } else {
        s
    }
}

/// Bhaskara's sine on the first half turn, scaled to `[0, SCALE]`.
pub open spec fn spec_half_sine(x: int) -> int {
    (16 * SCALE * x * (PI_FP - x)) / (5 * PI_FP * PI_FP - 4 * x * (PI_FP - x))
}

/// Sine of a normalized angle, in `[-SCALE, SCALE]`.
pub open spec fn spec_sin(a: int) -> int {
    if a <= PI_FP {
        spec_half_sine(a)
    } else {
        -spec_half_sine(a - PI_FP)
    }
}

/// Cosine of a normalized angle: the sine a quarter turn ahead.
pub open spec fn spec_cos(a: int) -> int {
    spec_sin(wrap_angle(a + HALF_PI_FP))
}

fn half_sine(x: i64) -> (r: i64)
    requires
        0 <= x <= PI_FP,
    ensures
        r == spec_half_sine(x as int),
        0 <= r <= SCALE,
{
    proof {
        assert(0 <= x * (PI_FP - x) && 4 * (x * (PI_FP - x)) <= PI_FP * PI_FP)
            by (nonlinear_arith)
            requires
                0 <= x <= PI_FP,
        ;
    }
    let t: i64 = x * (PI_FP - x);
    let num: i64 = 16 * SCALE * t;
    let den: i64 = 5 * PI_FP * PI_FP - 4 * t;
    let q: u64 = (num as u64) / (den as u64);
    proof {
        assert(num == 16 * SCALE * (x as int) * (PI_FP - x) && den == 5 * PI_FP * PI_FP - 4 * (
        x as int) * (PI_FP - x)) by (nonlinear_arith)
            requires
                num == 16 * SCALE * ((x as int) * (PI_FP - x as int)),
                den == 5 * PI_FP * PI_FP - 4 * ((x as int) * (PI_FP - x as int)),
        ;
        vstd::arithmetic::div_mod::lemma_div_is_ordered(num as int, 1000 * den, den as int);
        vstd::arithmetic::div_mod::lemma_div_by_multiple(1000, den as int);
        assert((1000 * den) / (den as int) == 1000);
    }
    q as i64
}

/// Sine of a normalized angle.
pub fn fp_sin(a: i64) -> (r: i64)
    requires
        is_angle(a as int),
    ensures
        r == spec_sin(a as int),
        -SCALE <= r <= SCALE,
{
    if a <= PI_FP {
        half_sine(a)
    } else {
        -half_sine(a - PI_FP)
    }
}

/// Cosine of a normalized angle.
pub fn fp_cos(a: i64) -> (r: i64)
    requires
        is_angle(a as int),
    ensures
        r == spec_cos(a as int),
        -SCALE <= r <= SCALE,
{
    let b: i64 = angle_add(a, HALF_PI_FP);
    fp_sin(b)
}

} // verus!
