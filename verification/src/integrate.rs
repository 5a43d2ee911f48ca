//! Advancing one body by one fixed timestep.
//!
//! The integrator damps the velocity toward the body's control target,
//! clamps its magnitude to the body's speed cap, and moves the position
//! by `velocity * dt`.  Every intermediate is an exact function of the
//! inputs, so a step is deterministic.

use vstd::prelude::*;
use crate::units::{
    div_trunc, isqrt_up, lemma_div_mul_le, lemma_sqrt_up, mag_of, mul_div, mul_div_i64, sqrt_up,
    MICROS,
};
use crate::vec2::{within, Vec2};
use crate::body::{spec_clamped, clamped, Motion, RigidBody, CAP_LIMIT, DT_LIMIT, POS_LIMIT, VEL_LIMIT};
use crate::damping::{decay_factor, damp_value, spec_damp, spec_decay};

verus! {

/// Squared magnitude of a velocity.
pub open spec fn spec_speed_sq(vx: int, vy: int) -> int {
    vx * vx + vy * vy
}

/// A velocity scaled back onto the speed cap: unchanged when its
/// magnitude is within `cap`, otherwise multiplied by
/// `cap / ceil(sqrt(vx^2 + vy^2))` componentwise.
pub open spec fn spec_clamp_speed(vx: int, vy: int, cap: int) -> (int, int) {
    let n = spec_speed_sq(vx, vy);
    if n <= cap * cap {
        (vx, vy)
    } else {
        let s = sqrt_up(n);
        (div_trunc(vx * cap, s), div_trunc(vy * cap, s))
    }
}

/// From `a * s <= xm * c` and `b * s <= ym * c` (all nonnegative) and
/// `xm^2 + ym^2 <= s^2`, the scaled components satisfy the cap:
/// `a^2 + b^2 <= c^2`.
proof fn lemma_scaled_within_cap(xm: int, ym: int, a: int, b: int, c: int, s: int)
    requires
        xm >= 0,
        ym >= 0,
        a >= 0,
        b >= 0,
        c >= 0,
        s >= 1,
        a * s <= xm * c,
        b * s <= ym * c,
        xm * xm + ym * ym <= s * s,
    ensures
        a * a + b * b <= c * c,
{
    assert((a * a) * (s * s) <= (xm * xm) * (c * c)) by (nonlinear_arith)
        requires
            a >= 0,
            s >= 1,
            xm >= 0,
            c >= 0,
            a * s <= xm * c,
    ;
    assert((b * b) * (s * s) <= (ym * ym) * (c * c)) by (nonlinear_arith)
        requires
            b >= 0,
            s >= 1,
            ym >= 0,
            c >= 0,
            b * s <= ym * c,
    ;
    assert((a * a + b * b) * (s * s) == (a * a) * (s * s) + (b * b) * (s * s)
        && (xm * xm + ym * ym) * (c * c) == (xm * xm) * (c * c) + (ym * ym) * (c * c))
        by (nonlinear_arith);
    assert((xm * xm + ym * ym) * (c * c) <= (s * s) * (c * c)) by (nonlinear_arith)
        requires
            xm * xm + ym * ym <= s * s,
            c >= 0,
    ;
    assert(a * a + b * b <= c * c) by (nonlinear_arith)
        requires
            s >= 1,
            (a * a + b * b) * (s * s) <= (s * s) * (c * c),
            a >= 0,
            b >= 0,
    ;
}

/// The speed clamp meets its cap: the clamped velocity's squared
/// magnitude never exceeds `cap * cap`, and its components stay inside
/// the hard velocity range.
pub proof fn lemma_clamp_speed_cap(vx: int, vy: int, cap: int)
    requires
        mag_of(vx) <= VEL_LIMIT,
        mag_of(vy) <= VEL_LIMIT,
        0 <= cap <= CAP_LIMIT,
    ensures
        ({
            let (rx, ry) = spec_clamp_speed(vx, vy, cap);
            &&& spec_speed_sq(rx, ry) <= cap * cap || (rx, ry) == (vx, vy)
            &&& spec_speed_sq(rx, ry) > cap * cap ==> (rx, ry) == (vx, vy)
            &&& spec_speed_sq(vx, vy) > cap * cap ==> spec_speed_sq(rx, ry) <= cap * cap
            &&& spec_speed_sq(rx, ry) <= cap * cap
            &&& mag_of(rx) <= VEL_LIMIT
            &&& mag_of(ry) <= VEL_LIMIT
        }),
{
    let n = spec_speed_sq(vx, vy);
    let xm = mag_of(vx);
    let ym = mag_of(vy);
    assert(xm * xm == vx * vx && ym * ym == vy * vy && n >= 0) by (nonlinear_arith)
        requires
            xm == mag_of(vx),
            ym == mag_of(vy),
            n == vx * vx + vy * vy,
    ;
    if n <= cap * cap {
    } else {
        let s = sqrt_up(n);
        lemma_sqrt_up(n);
        assert(s >= 1);
        let c = cap;
        let a = mag_of(div_trunc(vx * c, s));
        let b = mag_of(div_trunc(vy * c, s));
        assert(mag_of(vx * c) == xm * c && mag_of(vy * c) == ym * c && (vx >= 0 ==> vx * c >= 0) && (
        vx < 0 ==> vx * c <= 0) && (vy >= 0 ==> vy * c >= 0) && (vy < 0 ==> vy * c <= 0))
            by (nonlinear_arith)
            requires
                xm == mag_of(vx),
                ym == mag_of(vy),
                c >= 0,
        ;
        lemma_div_mul_le(xm * c, s);
        lemma_div_mul_le(ym * c, s);
        assert(a == (xm * c) / s && b == (ym * c) / s);
        lemma_scaled_within_cap(xm, ym, a, b, c, s);
        assert(a * a == div_trunc(vx * c, s) * div_trunc(vx * c, s) && b * b == div_trunc(
            vy * c,
            s,
        ) * div_trunc(vy * c, s)) by (nonlinear_arith)
            requires
                a == mag_of(div_trunc(vx * c, s)),
                b == mag_of(div_trunc(vy * c, s)),
        ;
        assert(a <= c && b <= c) by (nonlinear_arith)
            requires
                a >= 0,
                b >= 0,
                c >= 0,
                a * a + b * b <= c * c,
        ;
    }
}

/// Clamps a velocity's magnitude to `cap`, preserving its direction up
/// to rounding.  After the clamp the squared speed never exceeds
/// `cap * cap` — the speed-cap guarantee of the integrator.
pub fn clamp_speed(v: Vec2, cap: i64) -> (r: Vec2)
    requires
        within(v, VEL_LIMIT as int),
        0 <= cap <= CAP_LIMIT,
    ensures
        (r.x as int, r.y as int) == spec_clamp_speed(v.x as int, v.y as int, cap as int),
        spec_speed_sq(r.x as int, r.y as int) <= cap * cap,
        within(r, cap as int) || r == v,
        within(r, VEL_LIMIT as int),
{
    proof {
        assert(v.x * v.x + v.y * v.y <= 20000000000000000int && v.x * v.x >= 0 && v.y * v.y >= 0)
            by (nonlinear_arith)
            requires
                mag_of(v.x as int) <= 100000000,
                mag_of(v.y as int) <= 100000000,
        ;
    }
    let nx: i64 = v.x * v.x;
    let ny: i64 = v.y * v.y;
    let n: i64 = nx + ny;
    proof {
        assert(0 <= (cap as int) * (cap as int) <= 100000000000000int) by (nonlinear_arith)
            requires
                0 <= cap <= 10000000,
        ;
    }
    let c2: i64 = cap * cap;
    if n <= c2 {
        return v;
    }
    let s64: u64 = isqrt_up(n as u64);
    proof {
        lemma_sqrt_up(n as int);
    }
    let s: i64 = s64 as i64;
    proof {
        assert(s >= 1);
        assert(mag_of(v.x as int) * mag_of(cap as int) <= 1000000000000000int
            && mag_of(v.y as int) * mag_of(cap as int) <= 1000000000000000int)
            by (nonlinear_arith)
            requires
                mag_of(v.x as int) <= 100000000,
                mag_of(v.y as int) <= 100000000,
                0 <= mag_of(cap as int) <= 10000000,
        ;
    }
    let rx: i64 = mul_div_i64(v.x, cap, s);
    let ry: i64 = mul_div_i64(v.y, cap, s);
    proof {
        let xm = mag_of(v.x as int);
        let ym = mag_of(v.y as int);
        let a = mag_of(rx as int);
        let b = mag_of(ry as int);
        let c = cap as int;
        let si = s as int;
        assert(xm * xm == (v.x as int) * (v.x as int) && ym * ym == (v.y as int) * (v.y as int))
            by (nonlinear_arith)
            requires
                xm == mag_of(v.x as int),
                ym == mag_of(v.y as int),
        ;
        assert((s64 as int) * (s64 as int) == si * si);
        lemma_div_mul_le(xm * c, si);
        lemma_div_mul_le(ym * c, si);
        assert(a * si <= ((xm * c) / si) * si && b * si <= ((ym * c) / si) * si)
            by (nonlinear_arith)
            requires
                si >= 1,
                a <= (xm * c) / si,
                b <= (ym * c) / si,
        ;
        lemma_scaled_within_cap(xm, ym, a, b, c, si);
        assert(a * a == (rx as int) * (rx as int) && b * b == (ry as int) * (ry as int))
            by (nonlinear_arith)
            requires
                a == mag_of(rx as int),
                b == mag_of(ry as int),
        ;
        assert(a <= c && b <= c) by (nonlinear_arith)
            requires
                a >= 0,
                b >= 0,
                c >= 0,
                a * a + b * b <= c * c,
        ;
    }
    Vec2 { x: rx, y: ry }
}

/// The velocity after damping and capping, as an exact pair.
pub open spec fn spec_step_velocity(body: RigidBody, m: Motion, dt: int) -> (int, int) {
    let decay = spec_decay(body.damp_rate as int, dt);
    spec_clamp_speed(
        spec_damp(m.velocity.x as int, m.target.x as int, decay),
        spec_damp(m.velocity.y as int, m.target.y as int, decay),
        body.max_speed as int,
    )
}

/// The position after one step: moved by `velocity * dt`, saturated at
/// the coordinate limit.
pub open spec fn spec_step_position(body: RigidBody, m: Motion, dt: int) -> (int, int) {
    let (vx, vy) = spec_step_velocity(body, m, dt);
    (
        spec_clamped(m.position.x + mul_div(vx, dt, MICROS as int), -POS_LIMIT as int, POS_LIMIT as int),
        spec_clamped(m.position.y + mul_div(vy, dt, MICROS as int), -POS_LIMIT as int, POS_LIMIT as int),
    )
}

/// The whole motion state after one integration step, as a value.
pub open spec fn spec_integrate_motion(body: RigidBody, m: Motion, dt: int) -> Motion {
    let (vx, vy) = spec_step_velocity(body, m, dt);
    let (px, py) = spec_step_position(body, m, dt);
    Motion {
        position: Vec2 { x: px as i64, y: py as i64 },
        velocity: Vec2 { x: vx as i64, y: vy as i64 },
        target: m.target,
    }
}

/// Advances one body by `dt`: damps the velocity toward the control
/// target, clamps it to the body's speed cap, then moves the position.
/// The control target is left alone.  After the step the squared speed
/// never exceeds the cap squared.
pub fn integrate_motion(body: &RigidBody, m: &Motion, dt: i64) -> (r: Motion)
    requires
        body.wf(),
        m.wf(),
        0 <= dt <= DT_LIMIT,
    ensures
        r == spec_integrate_motion(*body, *m, dt as int),
        (r.velocity.x as int, r.velocity.y as int) == spec_step_velocity(*body, *m, dt as int),
        (r.position.x as int, r.position.y as int) == spec_step_position(*body, *m, dt as int),
        r.target == m.target,
        r.wf(),
        spec_speed_sq(r.velocity.x as int, r.velocity.y as int) <= body.max_speed
            * body.max_speed,
{
    let decay = decay_factor(body.damp_rate, dt);
    let vx = damp_value(m.velocity.x, m.target.x, decay);
    let vy = damp_value(m.velocity.y, m.target.y, decay);
    let vel = clamp_speed(Vec2 { x: vx, y: vy }, body.max_speed);
    proof {
        assert(mag_of(vel.x as int) * mag_of(dt as int) <= 100000000000000000int
            && mag_of(vel.y as int) * mag_of(dt as int) <= 100000000000000000int)
            by (nonlinear_arith)
            requires
                mag_of(vel.x as int) <= 100000000,
                mag_of(vel.y as int) <= 100000000,
                0 <= mag_of(dt as int) <= 10000000,
        ;
        vstd::arithmetic::div_mod::lemma_div_is_ordered(
            mag_of(vel.x as int) * mag_of(dt as int),
            100000000000000000int,
            MICROS as int,
        );
        vstd::arithmetic::div_mod::lemma_div_is_ordered(
            mag_of(vel.y as int) * mag_of(dt as int),
            100000000000000000int,
            MICROS as int,
        );
    }
    let dx = mul_div_i64(vel.x, dt, MICROS);
    let dy = mul_div_i64(vel.y, dt, MICROS);
    let px = clamped(m.position.x + dx, -POS_LIMIT, POS_LIMIT);
    let py = clamped(m.position.y + dy, -POS_LIMIT, POS_LIMIT);
    Motion { position: Vec2 { x: px, y: py }, velocity: vel, target: m.target }
}

} // verus!
