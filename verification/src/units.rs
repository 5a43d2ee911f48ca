//! Scaled-integer arithmetic underlying the simulation.
//!
//! A world unit (one pixel, one mass unit, one unit of restitution or
//! friction) is stored as `SCALE` subunits; a second of simulated time is
//! stored as `MICROS` microseconds.  Products are divided back down with
//! rounding toward zero, so every helper here is an exact function of its
//! arguments.

use vstd::prelude::*;

verus! {

/// Subunits per world unit for lengths, velocities, masses, restitution
/// and friction.
pub const SCALE: i64 = 1000;

/// Microseconds per second; all durations are counted in microseconds.
pub const MICROS: i64 = 1000000;

/// Magnitude of an integer.
pub open spec fn mag_of(a: int) -> int {
    if a >= 0 {
        a
    } else {
        -a
    }
}

/// Quotient of `a` by `d` rounded toward zero, the rounding used by all
/// executable fixed-point helpers (`/` on `int` is Euclidean, hence the
/// sign split).
pub open spec fn div_trunc(a: int, d: int) -> int {
    if a >= 0 {
        a / d
    } else {
        -((-a) / d)
    }
}

/// `a * b / d` rounded toward zero: the shape of every fixed-point product.
pub open spec fn mul_div(a: int, b: int, d: int) -> int {
    div_trunc(a * b, d)
}

/// Quotient of a nonnegative `a` by `d` rounded up.
pub open spec fn div_up(a: int, d: int) -> int {
    (a + d - 1) / d
}

/// The larger of two integers.
pub open spec fn spec_max(a: int, b: int) -> int {
    if a >= b {
        a
    } else {
        b
    }
}

/// The smaller of two integers.
pub open spec fn spec_min(a: int, b: int) -> int {
    if a <= b {
        a
    } else {
        b
    }
}

proof fn lemma_mag_mul(a: int, b: int)
    by (nonlinear_arith)
    ensures
        mag_of(a * b) == mag_of(a) * mag_of(b),
        (a * b >= 0) <==> (a >= 0 && b >= 0) || (a <= 0 && b <= 0),
{
}

/// `a * b / d` with truncation toward zero, the workhorse of the
/// fixed-point layer.
pub fn mul_div_i64(a: i64, b: i64, d: i64) -> (r: i64)
    requires
        d >= 1,
        mag_of(a as int) <= i64::MAX,
        mag_of(b as int) <= i64::MAX,
        mag_of(a as int) * mag_of(b as int) <= i64::MAX,
    ensures
        r == mul_div(a as int, b as int, d as int),
        mag_of(r as int) <= mag_of(a as int) * mag_of(b as int) / (d as int),
{
    proof {
        lemma_mag_mul(a as int, b as int);
        vstd::arithmetic::div_mod::lemma_div_pos_is_pos(
            mag_of((a as int) * (b as int)),
            d as int,
        );
    }
    let am: u64 = if a >= 0 {
        a as u64
    } else {
        (-a) as u64
    };
    let bm: u64 = if b >= 0 {
        b as u64
    } else {
        (-b) as u64
    };
    let q: u64 = (am * bm) / (d as u64);
    proof {
        assert(am * bm == mag_of((a as int) * (b as int)));
        vstd::arithmetic::div_mod::lemma_div_nonincreasing((am * bm) as int, d as int);
        vstd::arithmetic::div_mod::lemma_div_pos_is_pos((am * bm) as int, d as int);
    }
    if (a < 0) != (b < 0) {
        -(q as i64)
    } else {
        q as i64
    }
}

/// Truncated division never grows past the true quotient:
/// `(x / d) * d <= x` for nonnegative `x`.
pub proof fn lemma_div_mul_le(x: int, d: int)
    requires
        x >= 0,
        d >= 1,
    ensures
        (x / d) * d <= x,
        x / d >= 0,
{
    vstd::arithmetic::div_mod::lemma_fundamental_div_mod(x, d);
    vstd::arithmetic::div_mod::lemma_mod_division_less_than_divisor(x, d);
    vstd::arithmetic::div_mod::lemma_div_pos_is_pos(x, d);
    assert(d * (x / d) == (x / d) * d) by (nonlinear_arith);
}

/// `v * s` for a sign `s` of `1` or `-1`.
pub fn flip(v: i64, s: i64) -> (r: i64)
    requires
        s == 1 || s == -1,
        mag_of(v as int) <= i64::MAX,
    ensures
        r == v * s,
        mag_of(r as int) == mag_of(v as int),
{
    proof {
        assert(v * 1 == v && v * (-1) == -v && mag_of((v as int) * (s as int)) == mag_of(v as int))
            by (nonlinear_arith)
            requires
                s == 1 || s == -1,
        ;
    }
    if s == 1 {
        v
    } else {
        -v
    }
}

/// Quotient of `a` by `d`, rounded toward zero.
pub fn div_trunc_i64(a: i64, d: i64) -> (r: i64)
    requires
        d >= 1,
        a > i64::MIN,
    ensures
        r == div_trunc(a as int, d as int),
        mag_of(r as int) <= mag_of(a as int),
{
    proof {
        vstd::arithmetic::div_mod::lemma_div_pos_is_pos(mag_of(a as int), d as int);
        vstd::arithmetic::div_mod::lemma_div_nonincreasing(mag_of(a as int), d as int);
    }
    if a >= 0 {
        a / d
    } else {
        -((-a) / d)
    }
}

/// `a * b / d` rounded up, for nonnegative operands; used where a result
/// must never fall short of the exact quotient.
pub fn mul_div_up_i64(a: i64, b: i64, d: i64) -> (r: i64)
    requires
        d >= 1,
        a >= 0,
        b >= 0,
        a * b + d - 1 <= i64::MAX,
    ensures
        r == div_up((a as int) * (b as int), d as int),
        r >= 0,
        (a as int) * (b as int) <= r * d,
        r * d < (a as int) * (b as int) + d,
{
    let p: i64 = a * b;
    let r: i64 = (p + (d - 1)) / d;
    proof {
        let x = (p + d - 1) as int;
        vstd::arithmetic::div_mod::lemma_fundamental_div_mod(x, d as int);
        vstd::arithmetic::div_mod::lemma_div_pos_is_pos(x, d as int);
        assert((d as int) * (x / (d as int)) == (x / (d as int)) * (d as int))
            by (nonlinear_arith);
    }
    r
}

/// Floor of the square root, defined by recursive halving.
pub open spec fn sqrt_floor(n: int) -> int
    decreases n,
{
    if n < 1 {
        0
    } else {
        let r = 2 * sqrt_floor(n / 4);
        if (r + 1) * (r + 1) <= n {
            r + 1
        } else {
            r
        }
    }
}

pub proof fn lemma_sqrt_floor(n: int)
    requires
        n >= 0,
    ensures
        sqrt_floor(n) >= 0,
        sqrt_floor(n) * sqrt_floor(n) <= n,
        n < (sqrt_floor(n) + 1) * (sqrt_floor(n) + 1),
    decreases n,
{
    if n < 1 {
        assert(sqrt_floor(n) == 0);
    } else {
        let m = n / 4;
        lemma_sqrt_floor(m);
        let r0 = sqrt_floor(m);
        vstd::arithmetic::div_mod::lemma_fundamental_div_mod(n, 4);
        assert(4 * m <= n < 4 * m + 4);
        let s = sqrt_floor(n);
        assert(s == if (2 * r0 + 1) * (2 * r0 + 1) <= n {
            2 * r0 + 1
        } else {
            2 * r0
        });
        assert(sqrt_floor(n) >= 0 && sqrt_floor(n) * sqrt_floor(n) <= n && n < (sqrt_floor(n)
            + 1) * (sqrt_floor(n) + 1)) by (nonlinear_arith)
            requires
                r0 >= 0,
                r0 * r0 <= m,
                m < (r0 + 1) * (r0 + 1),
                4 * m <= n < 4 * m + 4,
                s == sqrt_floor(n),
                s == if (2 * r0 + 1) * (2 * r0 + 1) <= n {
                    2 * r0 + 1
                } else {
                    2 * r0
                },
        ;
    }
}

/// The square-root floor is the unique nonnegative `r` with
/// `r * r <= n < (r + 1) * (r + 1)`.
pub proof fn lemma_sqrt_floor_unique(n: int, r: int)
    requires
        n >= 0,
        r >= 0,
        r * r <= n,
        n < (r + 1) * (r + 1),
    ensures
        r == sqrt_floor(n),
{
    lemma_sqrt_floor(n);
    let s = sqrt_floor(n);
    assert(r == s) by (nonlinear_arith)
        requires
            r >= 0,
            s >= 0,
            r * r <= n,
            n < (r + 1) * (r + 1),
            s * s <= n,
            n < (s + 1) * (s + 1),
    ;
}

/// A component never exceeds the length of its vector:
/// `|x| <= sqrt(x^2 + y^2)` (rounded down).
pub proof fn lemma_sqrt_component(x: int, y: int)
    ensures
        mag_of(x) <= sqrt_floor(x * x + y * y),
{
    let n = x * x + y * y;
    assert(mag_of(x) * mag_of(x) == x * x && x * x >= 0 && y * y >= 0) by (nonlinear_arith);
    lemma_sqrt_floor(n);
    let s = sqrt_floor(n);
    assert(mag_of(x) <= s) by (nonlinear_arith)
        requires
            s >= 0,
            mag_of(x) >= 0,
            mag_of(x) * mag_of(x) <= n,
            n < (s + 1) * (s + 1),
    ;
}

/// Ceiling of the square root.
pub open spec fn sqrt_up(n: int) -> int {
    if sqrt_floor(n) * sqrt_floor(n) == n {
        sqrt_floor(n)
    } else {
        sqrt_floor(n) + 1
    }
}

pub proof fn lemma_sqrt_up(n: int)
    requires
        n >= 0,
    ensures
        sqrt_up(n) >= 0,
        n <= sqrt_up(n) * sqrt_up(n),
        sqrt_up(n) == 0 ==> n == 0,
{
    lemma_sqrt_floor(n);
}

/// Integer square root, rounded down.
pub fn isqrt(n: u64) -> (r: u64)
    requires
        n <= 16000000000000000000u64,
    ensures
        r == sqrt_floor(n as int),
        r * r <= n,
        n < (r + 1) * (r + 1),
        r <= 4000000000,
{
    let mut lo: u64 = 0;
    let mut hi: u64 = 4000000001;
    if n < 4000000001 {
        hi = n + 1;
    }
    proof {
        assert((4000000001int) * 4000000001 > 16000000000000000000int) by (nonlinear_arith);
        if n < 4000000001 {
            assert(((n + 1) as int) * ((n + 1) as int) > n) by (nonlinear_arith);
        }
    }
    while lo + 1 < hi
        invariant
            lo < hi,
            hi <= 4000000001,
            (lo as int) * (lo as int) <= n,
            (n as int) < (hi as int) * (hi as int),
        decreases hi - lo,
    {
        let mid: u64 = lo + (hi - lo) / 2;
        proof {
            assert(lo < mid < hi);
            assert((mid as int) * (mid as int) <= 16000000000000000000int) by (nonlinear_arith)
                requires
                    0 <= mid <= 4000000000,
            ;
        }
        if mid * mid <= n {
            lo = mid;
        } else {
            hi = mid;
        }
    }
    proof {
        assert(hi == lo + 1);
        lemma_sqrt_floor_unique(n as int, lo as int);
    }
    lo
}

/// Integer square root, rounded up.
pub fn isqrt_up(n: u64) -> (r: u64)
    requires
        n <= 16000000000000000000u64,
    ensures
        r == sqrt_up(n as int),
        n <= r * r,
        r == 0 ==> n == 0,
        r <= 4000000001,
{
    let r = isqrt(n);
    proof {
        lemma_sqrt_up(n as int);
    }
    if r * r == n {
        r
    } else {
        r + 1
    }
}

} // verus!
