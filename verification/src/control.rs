//! Paddle control: smoothing of raw input and forecast-based assistance.
//!
//! The paddle's velocity is damped toward the velocity the input asks
//! for, then capped.  The assistant scans the ball's forecast for the
//! best interception point — the one maximizing a space-time cost that
//! prefers waiting over moving — and steers toward it.

use vstd::prelude::*;
use crate::units::{
    div_trunc, isqrt, lemma_sqrt_component, mag_of, mul_div, mul_div_i64, sqrt_floor, MICROS,
    SCALE,
};
use crate::vec2::{within, Vec2};
use crate::body::{
    clamped, spec_clamped, Motion, CAP_LIMIT, DT_LIMIT, RATE_LIMIT, SIZE_LIMIT, VEL_LIMIT,
};
use crate::damping::{damp_value, decay_factor, spec_damp, spec_decay};
use crate::integrate::{clamp_speed, spec_clamp_speed, spec_speed_sq};
use crate::predict::{TrajPoint, Trajectory};

verus! {

/// Largest input sensitivity, in subunits (ten world units per count).
pub const SENSITIVITY_LIMIT: i64 = 10000;

/// Height of the strip above the lower boundary inside which
/// interception candidates are ignored, in subunits.
pub const ASSIST_FLOOR_MARGIN: i64 = 16000;

/// Control parameters of the player's paddle.
#[derive(Clone, Copy, PartialEq, Eq, Structural, Debug)]
pub struct Player {
    /// Speed cap of the paddle, in subunits per second.
    pub max_speed: i64,
    /// Input counts to velocity scaling, in subunits.
    pub sensitivity: i64,
    /// Damping rate of the velocity toward the input, per second.
    pub damp: i64,
    /// Half width of the zone the paddle defends on its own, in
    /// subunits.
    pub assist_range: i64,
    /// Top speed of assisted movement, in subunits per second.
    pub assist_speed: i64,
    /// Assistance engages when the ball falls faster than this,
    /// in subunits per second (negative is downward).
    pub assist_speed_threshold: i64,
}

impl Player {
    /// All parameters are inside their documented ranges.
    pub open spec fn wf(self) -> bool {
        &&& 0 <= self.max_speed <= CAP_LIMIT
        &&& 0 <= self.sensitivity <= SENSITIVITY_LIMIT
        &&& 0 <= self.damp <= RATE_LIMIT
        &&& 0 <= self.assist_range <= SIZE_LIMIT
        &&& 1 <= self.assist_speed <= CAP_LIMIT
        &&& -VEL_LIMIT <= self.assist_speed_threshold <= VEL_LIMIT
    }

    /// Builds the parameters, clamping each to its nearest valid value.
    pub fn new(
        max_speed: i64,
        sensitivity: i64,
        damp: i64,
        assist_range: i64,
        assist_speed: i64,
        assist_speed_threshold: i64,
    ) -> (r: Player)
        ensures
            r.wf(),
            r.max_speed == spec_clamped(max_speed as int, 0, CAP_LIMIT as int),
            r.sensitivity == spec_clamped(sensitivity as int, 0, SENSITIVITY_LIMIT as int),
            r.damp == spec_clamped(damp as int, 0, RATE_LIMIT as int),
            r.assist_range == spec_clamped(assist_range as int, 0, SIZE_LIMIT as int),
            r.assist_speed == spec_clamped(assist_speed as int, 1, CAP_LIMIT as int),
            r.assist_speed_threshold == spec_clamped(
                assist_speed_threshold as int,
                -VEL_LIMIT as int,
                VEL_LIMIT as int,
            ),
    {
        Player {
            max_speed: clamped(max_speed, 0, CAP_LIMIT),
            sensitivity: clamped(sensitivity, 0, SENSITIVITY_LIMIT),
            damp: clamped(damp, 0, RATE_LIMIT),
            assist_range: clamped(assist_range, 0, SIZE_LIMIT),
            assist_speed: clamped(assist_speed, 1, CAP_LIMIT),
            assist_speed_threshold: clamped(assist_speed_threshold, -VEL_LIMIT, VEL_LIMIT),
        }
    }
}

/// The velocity one axis of raw input asks for: input counts scaled by
/// the sensitivity, spread over the frame time, clamped to the control
/// range.  A frame time of zero asks for no movement.
pub open spec fn spec_input_velocity(delta: int, sensitivity: int, dt: int) -> int {
    if dt <= 0 {
        0
    } else {
        spec_clamped(
            mul_div(div_trunc(delta * sensitivity, SCALE as int), MICROS as int, dt),
            -CAP_LIMIT as int,
            CAP_LIMIT as int,
        )
    }
}

/// The paddle's velocity after one input frame: damped toward the sum
/// of the input velocity and the assist velocity, then capped.
pub open spec fn spec_move_player(
    m: Motion,
    player: Player,
    input_delta: Vec2,
    assist: Vec2,
    dt: int,
) -> (int, int) {
    let decay = spec_decay(player.damp as int, dt);
    let wx = spec_input_velocity(input_delta.x as int, player.sensitivity as int, dt) + assist.x;
    let wy = spec_input_velocity(input_delta.y as int, player.sensitivity as int, dt) + assist.y;
    spec_clamp_speed(
        spec_damp(m.velocity.x as int, wx, decay),
        spec_damp(m.velocity.y as int, wy, decay),
        player.max_speed as int,
    )
}

/// Applies one frame of input to the paddle: damps the velocity toward
/// what the input and the assistant ask for, and caps the speed.  The
/// position and control target are untouched; after the call the
/// paddle's squared speed never exceeds its cap squared.
pub fn move_player(m: &mut Motion, player: &Player, input_delta: Vec2, assist: Vec2, dt: i64)
    requires
        old(m).wf(),
        player.wf(),
        within(input_delta, SIZE_LIMIT as int),
        within(assist, CAP_LIMIT as int),
        0 <= dt <= DT_LIMIT,
    ensures
        final(m).wf(),
        final(m).position == old(m).position,
        final(m).target == old(m).target,
        (final(m).velocity.x as int, final(m).velocity.y as int) == spec_move_player(
            *old(m),
            *player,
            input_delta,
            assist,
            dt as int,
        ),
        spec_speed_sq(final(m).velocity.x as int, final(m).velocity.y as int) <= player.max_speed
            * player.max_speed,
{
    let wx = input_axis_velocity(input_delta.x, player.sensitivity, dt) + assist.x;
    let wy = input_axis_velocity(input_delta.y, player.sensitivity, dt) + assist.y;
    let decay = decay_factor(player.damp, dt);
    let vx = damp_value(m.velocity.x, wx, decay);
    let vy = damp_value(m.velocity.y, wy, decay);
    let vel = clamp_speed(Vec2 { x: vx, y: vy }, player.max_speed);
    *m = Motion { position: m.position, velocity: vel, target: m.target };
}

/// The velocity one axis of raw input asks for.
fn input_axis_velocity(delta: i64, sensitivity: i64, dt: i64) -> (r: i64)
    requires
        mag_of(delta as int) <= SIZE_LIMIT,
        0 <= sensitivity <= SENSITIVITY_LIMIT,
        0 <= dt <= DT_LIMIT,
    ensures
        r == spec_input_velocity(delta as int, sensitivity as int, dt as int),
        mag_of(r as int) <= CAP_LIMIT,
{
    if dt <= 0 {
        return 0;
    }
    proof {
        assert(mag_of(delta as int) * mag_of(sensitivity as int) <= 10000000000000int)
            by (nonlinear_arith)
            requires
                mag_of(delta as int) <= 1000000000,
                0 <= mag_of(sensitivity as int) <= 10000,
        ;
        vstd::arithmetic::div_mod::lemma_div_is_ordered(
            mag_of(delta as int) * mag_of(sensitivity as int),
            10000000000000int,
            SCALE as int,
        );
    }
    let scaled = mul_div_i64(delta, sensitivity, SCALE);
    proof {
        assert(mag_of(scaled as int) * mag_of(MICROS as int) <= 10000000000000000int)
            by (nonlinear_arith)
            requires
                mag_of(scaled as int) <= 10000000000,
                mag_of(MICROS as int) == 1000000,
        ;
    }
    let spread = mul_div_i64(scaled, MICROS, dt);
    clamped(spread, -CAP_LIMIT, CAP_LIMIT)
}

/// Distance between two positions, rounded down.
pub open spec fn spec_dist(a: Vec2, b: Vec2) -> int {
    sqrt_floor((a.x - b.x) * (a.x - b.x) + (a.y - b.y) * (a.y - b.y))
}

/// Distance between two positions, rounded down.
pub fn dist(a: Vec2, b: Vec2) -> (r: i64)
    requires
        within(a, SIZE_LIMIT as int),
        within(b, SIZE_LIMIT as int),
    ensures
        r == spec_dist(a, b),
        0 <= r <= 3000000000,
        mag_of((a.x - b.x) as int) <= r,
        mag_of((a.y - b.y) as int) <= r,
{
    let dx: i64 = a.x - b.x;
    let dy: i64 = a.y - b.y;
    proof {
        assert(0 <= (dx as int) * (dx as int) <= 4010000000000000000int && 0 <= (dy as int) * (
        dy as int) <= 4010000000000000000int) by (nonlinear_arith)
            requires
                mag_of(dx as int) <= 2000000001,
                mag_of(dy as int) <= 2000000001,
        ;
    }
    let n: i64 = dx * dx + dy * dy;
    proof {
        crate::units::lemma_sqrt_floor(n as int);
        lemma_sqrt_component(dx as int, dy as int);
        lemma_sqrt_component(dy as int, dx as int);
        assert((dy as int) * (dy as int) + (dx as int) * (dx as int) == n);
        assert(sqrt_floor(n as int) <= 3000000000int) by {
            let s = sqrt_floor(n as int);
            assert(s <= 3000000000int) by (nonlinear_arith)
                requires
                    s >= 0,
                    s * s <= 8020000000000000000int,
            ;
        }
    }
    let r = isqrt(n as u64) as i64;
    r
}

/// A forecast sample worth intercepting: below the arena midline, above
/// the floor strip, and still falling.
pub open spec fn spec_candidate(pt: TrajPoint, arena_half_height: int) -> bool {
    pt.position.y < 0 && pt.position.y > -arena_half_height + ASSIST_FLOOR_MARGIN
        && pt.velocity.y < 0
}

/// The space-time cost of intercepting at `pt` for a consumer at `pos`
/// that moves at most `approach_speed`: the time still left until the
/// sample, less the time needed to reach it.  The best interception
/// point maximizes this cost — the latest reachable intercept, which
/// prefers waiting over moving.
pub open spec fn spec_intercept_cost(
    pt: TrajPoint,
    elapsed: int,
    pos: Vec2,
    approach_speed: int,
) -> int {
    (pt.time - elapsed) - div_trunc(spec_dist(pt.position, pos) * (MICROS as int), approach_speed)
}

/// The best interception candidate among the samples from `k` on, given
/// the best seen so far; a later sample of equal cost replaces an
/// earlier one.
pub open spec fn spec_best_intercept(
    pts: Seq<TrajPoint>,
    k: int,
    best: Option<TrajPoint>,
    elapsed: int,
    pos: Vec2,
    approach_speed: int,
    arena_half_height: int,
) -> Option<TrajPoint>
    decreases pts.len() - k,
{
    if k < 0 || pts.len() <= k {
        best
    } else {
        let keep = if spec_candidate(pts[k], arena_half_height) && (best is None
            || spec_intercept_cost(pts[k], elapsed, pos, approach_speed) >= spec_intercept_cost(
            best->Some_0,
            elapsed,
            pos,
            approach_speed,
        )) {
            Some(pts[k])
        } else {
            best
        };
        spec_best_intercept(pts, k + 1, keep, elapsed, pos, approach_speed, arena_half_height)
    }
}

/// Every sample is within the arena and the velocity and time ranges, as
/// the predictor guarantees of its output.
pub open spec fn spec_samples_wf(pts: Seq<TrajPoint>) -> bool {
    forall|i: int|
        0 <= i < pts.len() ==> (#[trigger] within(pts[i].position, SIZE_LIMIT as int) && within(
            pts[i].velocity,
            VEL_LIMIT as int,
        ) && 0 <= pts[i].time <= 1000000000000)
}

/// Scans a forecast for the sample whose interception cost is largest.
pub fn select_intercept(
    pts: &Vec<TrajPoint>,
    elapsed: i64,
    pos: Vec2,
    approach_speed: i64,
    arena_half_height: i64,
) -> (r: Option<TrajPoint>)
    requires
        spec_samples_wf(pts@),
        0 <= elapsed <= 1000000000000000,
        1 <= approach_speed <= CAP_LIMIT,
        0 <= arena_half_height <= SIZE_LIMIT,
        within(pos, SIZE_LIMIT as int),
    ensures
        r == spec_best_intercept(
            pts@,
            0,
            None,
            elapsed as int,
            pos,
            approach_speed as int,
            arena_half_height as int,
        ),
        r is Some ==> within(r->Some_0.position, SIZE_LIMIT as int) && within(
            r->Some_0.velocity,
            VEL_LIMIT as int,
        ) && 0 <= r->Some_0.time <= 1000000000000,
{
    let mut best: Option<TrajPoint> = None;
    let mut k: usize = 0;
    let n = pts.len();
    while k < n
        invariant
            spec_samples_wf(pts@),
            0 <= elapsed <= 1000000000000000,
            1 <= approach_speed <= CAP_LIMIT,
            0 <= arena_half_height <= SIZE_LIMIT,
            within(pos, SIZE_LIMIT as int),
            n == pts@.len(),
            k <= n,
            best is Some ==> within(best->Some_0.position, SIZE_LIMIT as int) && within(
                best->Some_0.velocity,
                VEL_LIMIT as int,
            ) && 0 <= best->Some_0.time <= 1000000000000,
            spec_best_intercept(
                pts@,
                0,
                None,
                elapsed as int,
                pos,
                approach_speed as int,
                arena_half_height as int,
            ) == spec_best_intercept(
                pts@,
                k as int,
                best,
                elapsed as int,
                pos,
                approach_speed as int,
                arena_half_height as int,
            ),
        decreases n - k,
    {
        let pt = pts[k];
        proof {
            assert(within(pts@[k as int].position, SIZE_LIMIT as int) && within(
                pts@[k as int].velocity,
                VEL_LIMIT as int,
            ) && 0 <= pts@[k as int].time <= 1000000000000);
        }
        if pt.position.y < 0 && pt.position.y > -arena_half_height + ASSIST_FLOOR_MARGIN
            && pt.velocity.y < 0 {
            let replace = match best {
                None => true,
                Some(b) => {
                    let cost_new = intercept_cost(&pt, elapsed, pos, approach_speed);
                    let cost_old = intercept_cost(&b, elapsed, pos, approach_speed);
                    cost_new >= cost_old
                },
            };
            if replace {
                best = Some(pt);
            }
        }
        k = k + 1;
    }
    best
}

/// The assisted approach speed toward a candidate: fast enough to arrive
/// in time (with half again as much margin), capped at the assist speed,
/// and scaled down inside the stopping zone so the paddle eases in
/// rather than overshooting.  A candidate whose time has already passed
/// is chased at full assist speed.
pub open spec fn spec_assist_speed(c: TrajPoint, elapsed: int, pos: Vec2, player: Player) -> int {
    let d = spec_dist(c.position, pos);
    let t = c.time - elapsed;
    let raw = if t <= 0 {
        player.assist_speed as int
    } else {
        spec_clamped(
            (3 * (div_trunc(d * (MICROS as int), t) + SCALE)) / 2,
            0,
            player.assist_speed as int,
        )
    };
    let stop = (3 * player.assist_range) / 2;
    if d < stop {
        div_trunc(raw * d, stop)
    } else {
        raw
    }
}

/// The assist steering velocity: the assisted approach speed pointed at
/// the candidate; a candidate at the paddle's own position steers
/// nowhere.
pub open spec fn spec_assist_velocity(
    c: Option<TrajPoint>,
    elapsed: int,
    pos: Vec2,
    player: Player,
) -> (int, int) {
    if c is None {
        (0, 0)
    } else {
        let cand = c->Some_0;
        let d = spec_dist(cand.position, pos);
        if d <= 0 {
            (0, 0)
        } else {
            let speed = spec_assist_speed(cand, elapsed, pos, player);
            (
                mul_div(speed, cand.position.x - pos.x, d),
                mul_div(speed, cand.position.y - pos.y, d),
            )
        }
    }
}

/// The assistant engages when the ball falls faster than the threshold
/// and sits outside the zone the paddle defends on its own.
pub open spec fn spec_assist_engaged(ball_vel_y: int, delta_x: int, player: Player) -> bool {
    ball_vel_y < player.assist_speed_threshold && 2 * mag_of(delta_x) > player.assist_range
}

/// The time-scale the surroundings should damp toward: full speed
/// normally, slowed down — the closer the falling ball, the more — while
/// a fast ball falls toward the paddle.
pub open spec fn spec_time_scale_target(
    ball_vel_y: int,
    delta_y: int,
    player: Player,
    arena_half_height: int,
) -> int {
    if ball_vel_y < player.assist_speed_threshold && delta_y > 0 && arena_half_height >= 1 {
        spec_clamped(div_trunc(delta_y * (SCALE as int), arena_half_height) - 250, 200, SCALE as int)
    } else {
        SCALE as int
    }
}

/// The assisted approach speed toward one candidate.
fn assist_speed_toward(c: &TrajPoint, elapsed: i64, pos: Vec2, player: &Player) -> (r: i64)
    requires
        player.wf(),
        within(c.position, SIZE_LIMIT as int),
        0 <= c.time <= 1000000000000,
        0 <= elapsed <= 1000000000000000,
        within(pos, SIZE_LIMIT as int),
    ensures
        r == spec_assist_speed(*c, elapsed as int, pos, *player),
        0 <= r <= player.assist_speed,
{
    let d = dist(c.position, pos);
    let t = c.time - elapsed;
    let mut raw: i64;
    if t <= 0 {
        raw = player.assist_speed;
    } else {
        proof {
            assert(mag_of(d as int) * mag_of(MICROS as int) <= 3000000000000000000int)
                by (nonlinear_arith)
                requires
                    0 <= d <= 3000000000,
                    mag_of(MICROS as int) == 1000000,
            ;
            vstd::arithmetic::div_mod::lemma_div_pos_is_pos((d * MICROS) as int, t as int);
            vstd::arithmetic::div_mod::lemma_div_is_ordered(
                (d * MICROS) as int,
                3000000000000000000int,
                t as int,
            );
        }
        let v0 = mul_div_i64(d, MICROS, t);
        raw = clamped((3 * (v0 + SCALE)) / 2, 0, player.assist_speed);
        proof {
            vstd::arithmetic::div_mod::lemma_div_pos_is_pos(
                3 * ((v0 + SCALE) as int),
                2,
            );
        }
    }
    let stop = (3 * player.assist_range) / 2;
    if d < stop {
        proof {
            assert(mag_of(raw as int) * mag_of(d as int) <= 10000000int * 3000000000int)
                by (nonlinear_arith)
                requires
                    0 <= raw <= 10000000,
                    0 <= d <= 3000000000,
            ;
            assert((raw as int) * (d as int) <= (raw as int) * (stop as int))
                by (nonlinear_arith)
                requires
                    0 <= raw,
                    0 <= d <= stop,
            ;
            vstd::arithmetic::div_mod::lemma_div_is_ordered(
                (raw as int) * (d as int),
                (raw as int) * (stop as int),
                stop as int,
            );
            vstd::arithmetic::div_mod::lemma_div_multiples_vanish(raw as int, stop as int);
            vstd::arithmetic::div_mod::lemma_div_pos_is_pos((raw as int) * (d as int), stop as int);
        }
        raw = mul_div_i64(raw, d, stop);
    }
    raw
}

/// One assistance pass: reads the ball's live motion and its forecast,
/// and returns the assist steering velocity for the paddle together
/// with the time-scale target for the surroundings.  The assist velocity
/// never exceeds the assist speed on either axis; when the assistant is
/// disengaged, or no forecast sample is worth intercepting, it is zero.
pub fn player_assistance(
    player_pos: Vec2,
    player: &Player,
    ball: &Motion,
    trajectory: &Trajectory,
    now: i64,
    arena_half_height: i64,
) -> (r: (Vec2, i64))
    requires
        player.wf(),
        ball.wf(),
        within(player_pos, SIZE_LIMIT as int),
        spec_samples_wf(trajectory.points@),
        0 <= trajectory.start_time <= now <= 1000000000000000,
        0 <= arena_half_height <= SIZE_LIMIT,
    ensures
        ({
            let elapsed = now - trajectory.start_time;
            let engaged = spec_assist_engaged(
                ball.velocity.y as int,
                ball.position.x - player_pos.x,
                *player,
            );
            let best = spec_best_intercept(
                trajectory.points@,
                0,
                None,
                elapsed,
                player_pos,
                player.assist_speed as int,
                arena_half_height as int,
            );
            &&& engaged ==> (r.0.x as int, r.0.y as int) == spec_assist_velocity(
                best,
                elapsed,
                player_pos,
                *player,
            )
            &&& !engaged ==> r.0.x == 0 && r.0.y == 0
            &&& within(r.0, player.assist_speed as int)
            &&& r.1 == spec_time_scale_target(
                ball.velocity.y as int,
                ball.position.y - player_pos.y,
                *player,
                arena_half_height as int,
            )
        }),
{
    let delta_x: i64 = ball.position.x - player_pos.x;
    let delta_y: i64 = ball.position.y - player_pos.y;
    let adx: i64 = if delta_x >= 0 {
        delta_x
    } else {
        -delta_x
    };
    let mut assist = Vec2::zero();
    if ball.velocity.y < player.assist_speed_threshold && 2 * adx > player.assist_range {
        let elapsed = now - trajectory.start_time;
        if let Some(c) = select_intercept(
            &trajectory.points,
            elapsed,
            player_pos,
            player.assist_speed,
            arena_half_height,
        ) {
            let d = dist(c.position, player_pos);
            if d > 0 {
                let speed = assist_speed_toward(&c, elapsed, player_pos, player);
                let dir_x = c.position.x - player_pos.x;
                let dir_y = c.position.y - player_pos.y;
                proof {
                    assert(mag_of(speed as int) * mag_of(dir_x as int) <= 10000000int
                        * 3000000000int && mag_of(speed as int) * mag_of(dir_y as int) <= 10000000int
                        * 3000000000int) by (nonlinear_arith)
                        requires
                            0 <= speed <= 10000000,
                            mag_of(dir_x as int) <= 3000000000,
                            mag_of(dir_y as int) <= 3000000000,
                    ;
                    lemma_ratio_bounded(speed as int, dir_x as int, d as int);
                    lemma_ratio_bounded(speed as int, dir_y as int, d as int);
                }
                assist = Vec2 { x: mul_div_i64(speed, dir_x, d), y: mul_div_i64(speed, dir_y, d) };
            }
        }
    }
    let mut scale_target: i64 = SCALE;
    if ball.velocity.y < player.assist_speed_threshold && delta_y > 0 && arena_half_height >= 1 {
        proof {
            assert(mag_of(delta_y as int) * mag_of(SCALE as int) <= 1001000000000int * 1000)
                by (nonlinear_arith)
                requires
                    mag_of(delta_y as int) <= 1001000000000,
                    mag_of(SCALE as int) == 1000,
            ;
        }
        let frac = mul_div_i64(delta_y, SCALE, arena_half_height);
        scale_target = clamped(frac - 250, 200, SCALE);
    }
    (assist, scale_target)
}

/// Scaling a direction component no longer than `d` by `speed / d` stays
/// within `speed`.
proof fn lemma_ratio_bounded(speed: int, dir: int, d: int)
    requires
        0 <= speed,
        d >= 1,
        mag_of(dir) <= d,
    ensures
        mag_of(speed * dir) / d <= speed,
{
    assert(0 <= mag_of(speed * dir) <= speed * d) by (nonlinear_arith)
        requires
            0 <= speed,
            mag_of(dir) <= d,
    ;
    vstd::arithmetic::div_mod::lemma_div_is_ordered(mag_of(speed * dir), speed * d, d);
    vstd::arithmetic::div_mod::lemma_div_multiples_vanish(speed, d);
    assert(speed * d == d * speed) by (nonlinear_arith);
}

/// The space-time interception cost of one sample, in microseconds.
fn intercept_cost(pt: &TrajPoint, elapsed: i64, pos: Vec2, approach_speed: i64) -> (r: i64)
    requires
        within(pt.position, SIZE_LIMIT as int),
        0 <= pt.time <= 1000000000000,
        0 <= elapsed <= 1000000000000000,
        1 <= approach_speed <= CAP_LIMIT,
        within(pos, SIZE_LIMIT as int),
    ensures
        r == spec_intercept_cost(*pt, elapsed as int, pos, approach_speed as int),
{
    let d = dist(pt.position, pos);
    proof {
        assert(mag_of(d as int) * mag_of(MICROS as int) <= 3000000000000000000int)
            by (nonlinear_arith)
            requires
                0 <= d <= 3000000000,
                mag_of(MICROS as int) == 1000000,
        ;
        vstd::arithmetic::div_mod::lemma_div_pos_is_pos((d * MICROS) as int, approach_speed as int);
        vstd::arithmetic::div_mod::lemma_div_is_ordered(
            (d * MICROS) as int,
            3000000000000000000int,
            approach_speed as int,
        );
    }
    let travel = mul_div_i64(d, MICROS, approach_speed);
    (pt.time - elapsed) - travel
}

} // verus!
