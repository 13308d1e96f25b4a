//! Fixed-point scalars and the arithmetic helpers the simulation is built on.
//!
//! A scalar is an `i64` holding thousandths of a unit: `SCALE` (1000) is one
//! unit. Multiplying two scalars therefore divides the raw product by
//! `SCALE`, with truncation toward zero, which is what `fp_mul` states.

use vstd::prelude::*;

verus! {

/// Fixed-point unit: raw values are in thousandths.
pub const SCALE: i64 = 1000;

/// Largest magnitude a velocity component may hold.
pub const VEL_CAP: i64 = 100_000_000;

/// Largest magnitude a position coordinate may hold; integration saturates here.
pub const POS_CAP: i64 = 1_000_000_000_000_000;

/// Largest value `Mob::max_speed` may hold.
pub const SPEED_CAP: i64 = 10_000_000;

/// Largest value `Mob::thrust_power` and `Mob::thrust_power_speed` may hold.
pub const POWER_CAP: i64 = 1_000_000;

/// Largest value `Mob::gravity_factor` may hold.
pub const FACTOR_CAP: i64 = 1_000_000;

/// Largest value a timer duration, a timer elapsed count, or a delta-time may hold.
pub const TIME_CAP: i64 = 1_000_000_000_000;

/// Largest value a bounding-box side may hold.
pub const SIZE_CAP: i64 = 1_000_000_000;

/// Absolute value.
pub open spec fn s_abs(a: int) -> int {
    if a >= 0 {
        a
    } else {
        -a
    }
}

/// Division truncating toward zero, as Rust's `/` computes it for a
/// positive divisor.
pub open spec fn div_trunc(a: int, d: int) -> int {
    if a >= 0 {
        a / d
    } else {
        -((-a) / d)
    }
}

/// Fixed-point product: the raw product scaled back down, truncating toward zero.
pub open spec fn fp_mul(a: int, b: int) -> int {
    div_trunc(a * b, SCALE as int)
}

/// `v` forced into `[lo, hi]`.
pub open spec fn spec_clamp(v: int, lo: int, hi: int) -> int {
    if v < lo {
        lo
    } else if v > hi {
        hi
    } else {
        v
    }
}

pub fn clamp_i64(v: i64, lo: i64, hi: i64) -> (r: i64)
    requires
        lo <= hi,
    ensures
        r == spec_clamp(v as int, lo as int, hi as int),
{
    if v < lo {
        lo
    } else if v > hi {
        hi
    } else {
        v
    }
}

pub fn abs_i64(a: i64) -> (r: i64)
    requires
        a > i64::MIN,
    ensures
        r == s_abs(a as int),
{
    if a >= 0 {
        a
    } else {
        -a
    }
}

/// Truncating division of a scalar by a positive divisor.
pub fn div_trunc_i64(a: i64, d: i64) -> (r: i64)
    requires
        a > i64::MIN,
        d > 0,
    ensures
        r == div_trunc(a as int, d as int),
{
    let ma: u64 = abs_i64(a) as u64;
    let q: u64 = ma / (d as u64);
    assert(q <= ma);
    let qi: i64 = q as i64;
    if a < 0 && qi > 0 {
        -qi
    } else {
        qi
    }
}

/// Fixed-point multiplication of two scalars.
pub fn fp_mul_i64(a: i64, b: i64) -> (r: i64)
    requires
        a > i64::MIN,
        b > i64::MIN,
        s_abs(a as int) * s_abs(b as int) <= i64::MAX,
    ensures
        r == fp_mul(a as int, b as int),
{
    let ma: u64 = abs_i64(a) as u64;
    let mb: u64 = abs_i64(b) as u64;
    let m: u64 = ma * mb;
    let neg: bool = (a < 0) != (b < 0);
    proof {
        let ai = a as int;
        let bi = b as int;
        assert(ai * bi == if (ai < 0) != (bi < 0) {
            -(s_abs(ai) * s_abs(bi))
        } else {
            s_abs(ai) * s_abs(bi)
        }) by (nonlinear_arith);
        assert(m == s_abs(ai) * s_abs(bi));
    }
    let q: u64 = m / 1000;
    assert(q <= m);
    let qi: i64 = q as i64;
    if neg && qi > 0 {
        -qi
    } else {
        qi
    }
}

/// The magnitude of a truncating quotient is the quotient of the magnitude.
pub proof fn lemma_div_trunc_abs(a: int, d: int)
    requires
        d > 0,
    ensures
        s_abs(div_trunc(a, d)) == s_abs(a) / d,
        s_abs(div_trunc(a, d)) * d <= s_abs(a),
{
    vstd::arithmetic::div_mod::lemma_div_pos_is_pos(s_abs(a), d);
    if a >= 0 {
        vstd::arithmetic::div_mod::lemma_div_pos_is_pos(a, d);
    }
    vstd::arithmetic::div_mod::lemma_fundamental_div_mod(s_abs(a), d);
    assert(d * (s_abs(a) / d) == (s_abs(a) / d) * d) by (nonlinear_arith);
}

/// A fixed-point product is bounded by any `c` with `|a| * |b| <= SCALE * c`.
pub proof fn lemma_fp_mul_bound(a: int, b: int, c: int)
    requires
        0 <= c,
        s_abs(a) * s_abs(b) <= 1000 * c,
    ensures
        s_abs(fp_mul(a, b)) <= c,
{
    assert(s_abs(a * b) == s_abs(a) * s_abs(b)) by (nonlinear_arith);
    lemma_div_trunc_abs(a * b, 1000);
    vstd::arithmetic::div_mod::lemma_div_is_ordered(s_abs(a * b), 1000 * c, 1000);
    assert((c * 1000) / 1000 == c) by {
        vstd::arithmetic::div_mod::lemma_div_by_multiple(c, 1000);
    }
    assert(1000 * c == c * 1000) by (nonlinear_arith);
}

/// Magnitude bounds on the factors multiply into one on the product.
pub proof fn lemma_abs_product_bound(a: int, b: int, ab: int, bb: int)
    requires
        s_abs(a) <= ab,
        s_abs(b) <= bb,
    ensures
        s_abs(a) * s_abs(b) <= ab * bb,
{
    assert(s_abs(a) * s_abs(b) <= ab * bb) by (nonlinear_arith)
        requires
            0 <= s_abs(a) <= ab && 0 <= s_abs(b) <= bb,
    ;
}

/// A fixed-point product of factors bounded by `ab` and `bb` is bounded by
/// any `c` with `ab * bb <= SCALE * c`.
pub proof fn lemma_fp_mul_abs_bound(a: int, b: int, ab: int, bb: int, c: int)
    requires
        s_abs(a) <= ab,
        s_abs(b) <= bb,
        0 <= c,
        ab * bb <= 1000 * c,
    ensures
        s_abs(fp_mul(a, b)) <= c,
{
    lemma_abs_product_bound(a, b, ab, bb);
    lemma_fp_mul_bound(a, b, c);
}

/// A fixed-point product of nonnegative factors is nonnegative.
pub proof fn lemma_fp_mul_nonneg(a: int, b: int)
    requires
        0 <= a,
        0 <= b,
    ensures
        0 <= fp_mul(a, b),
{
    assert(0 <= a * b) by (nonlinear_arith)
        requires
            0 <= a && 0 <= b,
    ;
    vstd::arithmetic::div_mod::lemma_div_pos_is_pos(a * b, 1000);
}

/// Scaling a vector component `t` by `ns / s` cannot push it past `ns`
/// when `t * t <= s * s`; the scaled value also keeps the cross bound
/// `|r| * s <= |t| * ns` that the speed-clamp argument rests on.
pub proof fn lemma_scaled_component_bound(t: int, ns: int, s: int)
    requires
        s > 0,
        0 <= ns,
        t * t <= s * s,
    ensures
        s_abs(div_trunc(t * ns, s)) <= ns,
        s_abs(div_trunc(t * ns, s)) * s <= s_abs(t) * ns,
{
    lemma_div_trunc_abs(t * ns, s);
    assert(s_abs(t * ns) == s_abs(t) * ns) by (nonlinear_arith)
        requires
            0 <= ns,
    ;
    assert(s_abs(t) <= s) by (nonlinear_arith)
        requires
            t * t <= s * s && s > 0,
    ;
    vstd::arithmetic::mul::lemma_mul_inequality(s_abs(t), s, ns);
    assert(s * ns == ns * s) by (nonlinear_arith);
    vstd::arithmetic::div_mod::lemma_div_is_ordered(s_abs(t) * ns, ns * s, s);
    vstd::arithmetic::div_mod::lemma_div_by_multiple(ns, s);
}

/// Whether `r` is the least nonnegative integer whose square reaches `n`.
pub open spec fn is_sqrt_ceil(n: int, r: int) -> bool {
    0 <= r && n <= r * r && (r > 0 ==> (r - 1) * (r - 1) < n)
}

/// The least nonnegative `r` with `r * r >= n`.
pub open spec fn sqrt_ceil(n: int) -> int {
    choose|r: int| is_sqrt_ceil(n, r)
}

/// At most one integer satisfies `is_sqrt_ceil` for a given `n`, so whenever
/// a witness is at hand, `sqrt_ceil` equals it.
pub proof fn lemma_sqrt_ceil_unique(n: int, k: int)
    requires
        is_sqrt_ceil(n, k),
    ensures
        sqrt_ceil(n) == k,
{
    assert(exists|r: int| is_sqrt_ceil(n, r));
    let c = sqrt_ceil(n);
    assert(is_sqrt_ceil(n, c));
    if c < k {
        vstd::arithmetic::mul::lemma_mul_inequality(c, k - 1, c);
        vstd::arithmetic::mul::lemma_mul_inequality(c, k - 1, k - 1);
        assert(c * c <= (k - 1) * (k - 1));
        assert(false);
    } else if k < c {
        vstd::arithmetic::mul::lemma_mul_inequality(k, c - 1, k);
        vstd::arithmetic::mul::lemma_mul_inequality(k, c - 1, c - 1);
        assert(k * k <= (c - 1) * (c - 1));
        assert(false);
    }
}

/// For every nonnegative `n` some integer satisfies `is_sqrt_ceil`, so
/// `sqrt_ceil(n)` itself does.
pub proof fn lemma_sqrt_ceil_exists(n: int)
    requires
        0 <= n,
    ensures
        is_sqrt_ceil(n, sqrt_ceil(n)),
    decreases n,
{
    if n == 0 {
        assert(is_sqrt_ceil(0, 0));
    } else {
        lemma_sqrt_ceil_exists(n - 1);
        let r = sqrt_ceil(n - 1);
        if r * r >= n {
            assert(r > 0) by {
                if r == 0 {
                    assert(r * r == 0) by (nonlinear_arith)
                        requires
                            r == 0,
                    ;
                }
            }
            assert(is_sqrt_ceil(n, r));
        } else {
            assert(n - 1 <= r * r < n);
            assert((r + 1) * (r + 1) == r * r + 2 * r + 1) by (nonlinear_arith);
            assert(is_sqrt_ceil(n, r + 1));
        }
    }
    assert(exists|k: int| is_sqrt_ceil(n, k));
}

/// The least `r` with `r * r >= n`, e.g. the magnitude of a velocity vector
/// rounded upward, so that scaling a vector down by it can never grow it.
pub fn sqrt_ceil_u64(n: u64) -> (r: u64)
    requires
        n <= i64::MAX,
    ensures
        r == sqrt_ceil(n as int),
        n <= r * r,
        r <= 3_037_000_500,
        n == 0 ==> r == 0,
        n > 0 ==> (r - 1) * (r - 1) < n,
{
    if n == 0 {
        proof {
            lemma_sqrt_ceil_unique(0, 0);
        }
        return 0;
    }
    let mut lo: u64 = 0;
    let mut hi: u64 = 3_037_000_500;
    assert(3_037_000_500 * 3_037_000_500 > i64::MAX) by (nonlinear_arith);
    while lo + 1 < hi
        invariant
            lo < hi <= 3_037_000_500,
            n <= i64::MAX,
            lo * lo <= n,
            n < hi * hi,
        decreases hi - lo,
    {
        let mid: u64 = lo + (hi - lo) / 2;
        assert(lo < mid < hi);
        assert(mid * mid < 18_446_744_073_709_551_616) by (nonlinear_arith)
            requires
                mid < 3_037_000_500,
        ;
        if mid * mid <= n {
            lo = mid;
        } else {
            hi = mid;
        }
    }
    let f: u64 = lo;
    assert(hi == lo + 1);
    assert(f * f <= n < (f + 1) * (f + 1));
    let r: u64 = if f * f == n {
        f
    } else {
        f + 1
    };
    proof {
        if f * f == n {
            assert(f > 0) by {
                assert(n > 0);
            }
            assert((f - 1) * (f - 1) < f * f) by (nonlinear_arith)
                requires
                    f > 0,
            ;
            assert(is_sqrt_ceil(n as int, f as int));
            lemma_sqrt_ceil_unique(n as int, f as int);
        } else {
            assert(is_sqrt_ceil(n as int, f as int + 1));
            lemma_sqrt_ceil_unique(n as int, f as int + 1);
        }
        assert(n <= r * r);
    }
    r
}

} // verus!
