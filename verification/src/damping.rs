//! Exponential damping of a value toward a target.
//!
//! One damp step keeps a fraction of the current offset from the target:
//! `damp(v) = target + decay * (v - target) / SCALE`, where `decay`
//! approximates `SCALE * e^(-rate*dt)`.  Because the decay factor never
//! exceeds `SCALE`, a damped value never overshoots its target, and
//! because it falls below `SCALE` for any positive `rate * dt`, repeated
//! steps reach the target exactly after at most the initial offset many
//! steps.

use vstd::prelude::*;
use crate::units::{div_trunc, mag_of, mul_div_i64, MICROS, SCALE};
use crate::body::{DT_LIMIT, RATE_LIMIT};

verus! {

/// The fraction (in subunits) of an offset that one damp step keeps:
/// a rational approximation of `SCALE * e^(-x)` for
/// `x = rate * dt / MICROS`, namely `SCALE / (1 + x + x*x/2)`.
pub open spec fn spec_decay(rate: int, dt: int) -> int {
    let x = (rate * dt) / (MICROS as int);
    (SCALE * SCALE) / (SCALE + x + (x * x) / (2 * SCALE))
}

/// Decay factor kept by one damp step over `dt` at damping rate `rate`.
pub fn decay_factor(rate: i64, dt: i64) -> (r: i64)
    requires
        0 <= rate <= RATE_LIMIT,
        0 <= dt <= DT_LIMIT,
    ensures
        r == spec_decay(rate as int, dt as int),
        0 <= r <= SCALE,
        rate * dt >= MICROS ==> r < SCALE,
{
    proof {
        assert(0 <= (rate as int) * (dt as int) <= 10000000000000int) by (nonlinear_arith)
            requires
                0 <= rate <= 1000000,
                0 <= dt <= 10000000,
        ;
    }
    let p: i64 = rate * dt;
    let x: i64 = p / MICROS;
    proof {
        vstd::arithmetic::div_mod::lemma_div_pos_is_pos(p as int, MICROS as int);
        vstd::arithmetic::div_mod::lemma_div_is_ordered(p as int, 10000000000000int, MICROS as int);
        assert(0 <= (x as int) * (x as int) <= 100000000000000int) by (nonlinear_arith)
            requires
                0 <= x <= 10000000,
        ;
    }
    let xx: i64 = x * x;
    let d: i64 = SCALE + x + xx / (2 * SCALE);
    let r: i64 = (SCALE * SCALE) / d;
    proof {
        vstd::arithmetic::div_mod::lemma_div_pos_is_pos(xx as int, (2 * SCALE) as int);
        assert(d >= SCALE);
        vstd::arithmetic::div_mod::lemma_div_is_ordered_by_denominator(
            (SCALE * SCALE) as int,
            SCALE as int,
            d as int,
        );
        vstd::arithmetic::div_mod::lemma_div_pos_is_pos((SCALE * SCALE) as int, d as int);
        if p >= MICROS {
            vstd::arithmetic::div_mod::lemma_div_is_ordered(MICROS as int, p as int, MICROS as int);
            assert(x >= 1);
            assert(d >= SCALE + 1);
            vstd::arithmetic::div_mod::lemma_div_is_ordered_by_denominator(
                (SCALE * SCALE) as int,
                (SCALE + 1) as int,
                d as int,
            );
            assert((SCALE * SCALE) as int / ((SCALE + 1) as int) < SCALE);
        }
    }
    r
}

/// One damp step of a scalar toward `target`, keeping `decay / SCALE` of
/// the current offset (rounded toward zero).
pub open spec fn spec_damp(v: int, target: int, decay: int) -> int {
    target + div_trunc((v - target) * decay, SCALE as int)
}

/// The decay factor is a genuine fraction: it never exceeds `SCALE`.
pub proof fn lemma_decay_range(rate: int, dt: int)
    requires
        rate >= 0,
        dt >= 0,
    ensures
        0 <= spec_decay(rate, dt) <= SCALE,
{
    assert(rate * dt >= 0) by (nonlinear_arith)
        requires
            rate >= 0,
            dt >= 0,
    ;
    let x = (rate * dt) / (MICROS as int);
    vstd::arithmetic::div_mod::lemma_div_pos_is_pos(rate * dt, MICROS as int);
    assert(x * x >= 0) by (nonlinear_arith);
    vstd::arithmetic::div_mod::lemma_div_pos_is_pos(x * x, 2 * (SCALE as int));
    let d = SCALE + x + (x * x) / (2 * (SCALE as int));
    assert(d >= SCALE);
    vstd::arithmetic::div_mod::lemma_div_pos_is_pos((SCALE * SCALE) as int, d);
    vstd::arithmetic::div_mod::lemma_div_is_ordered_by_denominator(
        (SCALE * SCALE) as int,
        SCALE as int,
        d,
    );
}

/// The damped value lies between the old value and the target: damping
/// never overshoots.
pub proof fn lemma_damp_no_overshoot(v: int, target: int, decay: int)
    requires
        0 <= decay <= SCALE,
    ensures
        v <= target ==> v <= spec_damp(v, target, decay) <= target,
        v >= target ==> target <= spec_damp(v, target, decay) <= v,
        mag_of(spec_damp(v, target, decay) - target) <= mag_of(v - target),
{
    let diff = v - target;
    let p = diff * decay;
    if diff >= 0 {
        assert(0 <= p <= diff * SCALE) by (nonlinear_arith)
            requires
                diff >= 0,
                0 <= decay <= SCALE,
                p == diff * decay,
        ;
        vstd::arithmetic::div_mod::lemma_div_pos_is_pos(p, SCALE as int);
        vstd::arithmetic::div_mod::lemma_div_is_ordered(p, diff * SCALE, SCALE as int);
        vstd::arithmetic::div_mod::lemma_div_by_multiple(diff, SCALE as int);
    } else {
        assert(0 <= -p <= (-diff) * SCALE) by (nonlinear_arith)
            requires
                diff < 0,
                0 <= decay <= SCALE,
                p == diff * decay,
        ;
        vstd::arithmetic::div_mod::lemma_div_pos_is_pos(-p, SCALE as int);
        vstd::arithmetic::div_mod::lemma_div_is_ordered(-p, (-diff) * SCALE, SCALE as int);
        vstd::arithmetic::div_mod::lemma_div_by_multiple(-diff, SCALE as int);
    }
}

/// With any decay strictly below `SCALE`, one damp step strictly shrinks
/// a nonzero offset: convergence makes progress every step.
pub proof fn lemma_damp_progress(v: int, target: int, decay: int)
    requires
        0 <= decay < SCALE,
        v != target,
    ensures
        mag_of(spec_damp(v, target, decay) - target) < mag_of(v - target),
{
    let diff = v - target;
    let m = mag_of(diff);
    let p = m * decay;
    assert(0 <= p <= m * SCALE - m) by (nonlinear_arith)
        requires
            m >= 1,
            0 <= decay <= SCALE - 1,
            p == m * decay,
    ;
    vstd::arithmetic::div_mod::lemma_div_pos_is_pos(p, SCALE as int);
    vstd::arithmetic::div_mod::lemma_div_is_ordered(p, m * SCALE - m, SCALE as int);
    assert((m * SCALE - m) / (SCALE as int) <= m - 1) by {
        vstd::arithmetic::div_mod::lemma_hoist_over_denominator(-m, m, SCALE as nat);
        assert(m * SCALE - m == -m + m * SCALE);
    }
    if diff >= 0 {
        assert(diff * decay == p) by (nonlinear_arith)
            requires
                diff >= 0,
                m == diff,
                p == m * decay,
        ;
    } else {
        assert((-(diff * decay)) == p) by (nonlinear_arith)
            requires
                diff < 0,
                m == -diff,
                p == m * decay,
        ;
    }
}

/// One damp step of a scalar toward `target`.
pub fn damp_value(v: i64, target: i64, decay: i64) -> (r: i64)
    requires
        0 <= decay <= SCALE,
        mag_of(v as int) <= 0x1000000000000,
        mag_of(target as int) <= 0x1000000000000,
    ensures
        r == spec_damp(v as int, target as int, decay as int),
        v <= target ==> v <= r <= target,
        v >= target ==> target <= r <= v,
{
    let diff: i64 = v - target;
    proof {
        lemma_damp_no_overshoot(v as int, target as int, decay as int);
        assert(mag_of(diff as int) * mag_of(decay as int) <= 0x2000000000000 * 1000)
            by (nonlinear_arith)
            requires
                mag_of(diff as int) <= 0x2000000000000,
                0 <= mag_of(decay as int) <= 1000,
        ;
    }
    let step: i64 = mul_div_i64(diff, decay, SCALE);
    target + step
}

/// `v` damped toward `target` for `n` steps at a constant decay.
pub open spec fn spec_damp_iter(v: int, target: int, decay: int, n: nat) -> int
    decreases n,
{
    if n == 0 {
        v
    } else {
        spec_damp(spec_damp_iter(v, target, decay, (n - 1) as nat), target, decay)
    }
}

/// Damping convergence: at any decay strictly below `SCALE` (that is,
/// whenever `rate * dt` is at least one microsecond-unit), repeated
/// damping toward a constant target reaches the target exactly within
/// `|v - target|` steps, and no step ever overshoots.
pub proof fn lemma_damp_converges(v: int, target: int, decay: int, n: nat)
    requires
        0 <= decay < SCALE,
        n >= mag_of(v - target),
    ensures
        spec_damp_iter(v, target, decay, n) == target,
    decreases n,
{
    if v == target {
        lemma_damp_iter_fixed(v, target, decay, n);
    } else {
        lemma_damp_progress(v, target, decay);
        let v1 = spec_damp(v, target, decay);
        lemma_damp_converges(v1, target, decay, (n - 1) as nat);
        lemma_damp_iter_shift(v, target, decay, (n - 1) as nat);
    }
}

/// A value already at the target stays there.
proof fn lemma_damp_iter_fixed(v: int, target: int, decay: int, n: nat)
    requires
        0 <= decay <= SCALE,
        v == target,
    ensures
        spec_damp_iter(v, target, decay, n) == target,
    decreases n,
{
    vstd::arithmetic::div_mod::lemma_div_of0(SCALE as int);
    assert((v - target) * decay == 0) by (nonlinear_arith)
        requires
            v == target,
    ;
    if n > 0 {
        lemma_damp_iter_fixed(v, target, decay, (n - 1) as nat);
    }
}

/// Iterating `n + 1` times equals iterating `n` times from one step in.
proof fn lemma_damp_iter_shift(v: int, target: int, decay: int, n: nat)
    ensures
        spec_damp_iter(v, target, decay, n + 1) == spec_damp_iter(
            spec_damp(v, target, decay),
            target,
            decay,
            n,
        ),
    decreases n,
{
    if n == 0 {
        assert(spec_damp_iter(v, target, decay, 1) == spec_damp(
            spec_damp_iter(v, target, decay, 0),
            target,
            decay,
        ));
    } else {
        lemma_damp_iter_shift(v, target, decay, (n - 1) as nat);
        assert(spec_damp_iter(v, target, decay, n + 1) == spec_damp(
            spec_damp_iter(v, target, decay, n),
            target,
            decay,
        ));
        assert(spec_damp_iter(spec_damp(v, target, decay), target, decay, n) == spec_damp(
            spec_damp_iter(spec_damp(v, target, decay), target, decay, (n - 1) as nat),
            target,
            decay,
        ));
    }
}

} // verus!
