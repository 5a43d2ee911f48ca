//! Trajectory forecasting for a ball body.
//!
//! The predictor re-simulates a body forward from its current state at a
//! fine sub-step, without touching the live motion: positions advance by
//! `velocity * dt` and crossing an arena boundary flips the velocity
//! component on the crossed axis and clamps the position back onto the
//! boundary.  The forecast is a fixed-length run of timestamped samples;
//! a stale forecast is simply overwritten by the next one.

use vstd::prelude::*;
use crate::units::{mag_of, mul_div, mul_div_i64, spec_max, MICROS};
use crate::vec2::{within, Vec2};
use crate::body::{DT_LIMIT, POS_LIMIT, SIZE_LIMIT, VEL_LIMIT};
use crate::world::World;

verus! {

/// One forecast sample: the time offset from the forecast's start, in
/// microseconds, and the predicted position and velocity.
#[derive(Clone, Copy, PartialEq, Eq, Structural, Debug)]
pub struct TrajPoint {
    pub time: i64,
    pub position: Vec2,
    pub velocity: Vec2,
}

/// A forecast: the timestamp it was made at (the caller's clock, in
/// microseconds) and its ordered samples.  Consumers compare the stamp
/// against their own clock to reject a stale forecast.
pub struct Trajectory {
    pub start_time: i64,
    pub points: Vec<TrajPoint>,
}

/// How far from the arena centre a body's centre may travel on one axis:
/// the arena half extent less the body half extent, floored at zero.
pub open spec fn spec_free_range(arena_half: int, body_half: int) -> int {
    spec_max(arena_half - body_half, 0)
}

/// Reflection of one axis: a position past a boundary is clamped onto it
/// and the velocity component flips sign.
pub open spec fn spec_reflect_axis(p: int, v: int, lim: int) -> (int, int) {
    if p < -lim {
        (-lim, -v)
    } else if p > lim {
        (lim, -v)
    } else {
        (p, v)
    }
}

/// One predictor sub-step as a value: free flight then idealized
/// reflection at the four arena boundaries.
pub open spec fn spec_substep(p: Vec2, v: Vec2, dt: int, lim_x: int, lim_y: int) -> (Vec2, Vec2) {
    let (px, vx) = spec_reflect_axis(p.x + mul_div(v.x as int, dt, MICROS as int), v.x as int, lim_x);
    let (py, vy) = spec_reflect_axis(p.y + mul_div(v.y as int, dt, MICROS as int), v.y as int, lim_y);
    (Vec2 { x: px as i64, y: py as i64 }, Vec2 { x: vx as i64, y: vy as i64 })
}

/// One predictor sub-step.  The resulting position is always inside the
/// boundaries, and the speed on each axis is kept (only its direction
/// can change).
pub fn predict_substep(p: Vec2, v: Vec2, dt: i64, lim_x: i64, lim_y: i64) -> (r: (Vec2, Vec2))
    requires
        within(p, POS_LIMIT as int),
        within(v, VEL_LIMIT as int),
        0 <= dt <= DT_LIMIT,
        0 <= lim_x <= SIZE_LIMIT,
        0 <= lim_y <= SIZE_LIMIT,
    ensures
        r == spec_substep(p, v, dt as int, lim_x as int, lim_y as int),
        -lim_x <= r.0.x <= lim_x,
        -lim_y <= r.0.y <= lim_y,
        mag_of(r.1.x as int) == mag_of(v.x as int),
        mag_of(r.1.y as int) == mag_of(v.y as int),
        within(r.0, POS_LIMIT as int),
        within(r.1, VEL_LIMIT as int),
{
    proof {
        assert(mag_of(v.x as int) * mag_of(dt as int) <= 1000000000000000int && mag_of(v.y as int)
            * mag_of(dt as int) <= 1000000000000000int) by (nonlinear_arith)
            requires
                mag_of(v.x as int) <= 100000000,
                mag_of(v.y as int) <= 100000000,
                0 <= mag_of(dt as int) <= 10000000,
        ;
        vstd::arithmetic::div_mod::lemma_div_is_ordered(
            mag_of(v.x as int) * mag_of(dt as int),
            1000000000000000int,
            MICROS as int,
        );
        vstd::arithmetic::div_mod::lemma_div_is_ordered(
            mag_of(v.y as int) * mag_of(dt as int),
            1000000000000000int,
            MICROS as int,
        );
    }
    let dx = mul_div_i64(v.x, dt, MICROS);
    let dy = mul_div_i64(v.y, dt, MICROS);
    let rx = p.x + dx;
    let ry = p.y + dy;
    let mut px: i64 = rx;
    let mut vx: i64 = v.x;
    if rx < -lim_x {
        px = -lim_x;
        vx = -v.x;
    } else if rx > lim_x {
        px = lim_x;
        vx = -v.x;
    }
    let mut py: i64 = ry;
    let mut vy: i64 = v.y;
    if ry < -lim_y {
        py = -lim_y;
        vy = -v.y;
    } else if ry > lim_y {
        py = lim_y;
        vy = -v.y;
    }
    (Vec2 { x: px, y: py }, Vec2 { x: vx, y: vy })
}

/// The forecast samples from a given state on: each sub-step advances
/// the state and contributes one timestamped sample.
pub open spec fn spec_predict_from(
    p: Vec2,
    v: Vec2,
    dt: int,
    lim_x: int,
    lim_y: int,
    t: int,
    k: nat,
) -> Seq<TrajPoint>
    decreases k,
{
    if k == 0 {
        Seq::empty()
    } else {
        let (p2, v2) = spec_substep(p, v, dt, lim_x, lim_y);
        seq![TrajPoint { time: (t + dt) as i64, position: p2, velocity: v2 }]
            + spec_predict_from(p2, v2, dt, lim_x, lim_y, t + dt, (k - 1) as nat)
    }
}

/// Longest forecast, in samples.
pub const PREDICT_MAX_SAMPLES: usize = 10000;

impl Trajectory {
    /// Whether this forecast is too old to act on at time `now`:
    /// consumers must reject one from more than a forecast cycle ago
    /// (or from a clock that ran backwards) rather than trust wall-clock
    /// coincidence.
    pub fn is_stale(&self, now: i64, max_age: i64) -> (r: bool)
        requires
            -1000000000000000 <= self.start_time <= 1000000000000000,
            -1000000000000000 <= now <= 1000000000000000,
            0 <= max_age <= 1000000000000000,
        ensures
            r <==> (now - self.start_time > max_age || now < self.start_time),
    {
        now - self.start_time > max_age || now < self.start_time
    }
}

impl World {
    /// Forecasts the future path of the body `id` over `count` sub-steps
    /// of `substep_dt` microseconds each, reflecting ideally off the
    /// four arena boundaries; paddle interactions are deliberately not
    /// forecast.  Reads the live state without modifying anything.
    /// Returns `None` exactly when the body is unknown, unregistered or
    /// inactive.  Every predicted position lies inside the arena
    /// boundaries (inset by the body's half extents).
    pub fn predict_trajectory(
        &self,
        id: usize,
        start_time: i64,
        substep_dt: i64,
        count: usize,
    ) -> (r: Option<Trajectory>)
        requires
            self.wf(),
            0 <= substep_dt <= DT_LIMIT,
            count <= PREDICT_MAX_SAMPLES,
            0 <= start_time,
        ensures
            r is Some <==> id < self.bodies@.len() && self.bodies@[id as int].active(),
            r is Some ==> ({
                let e = self.bodies@[id as int];
                let lim_x = spec_free_range(
                    self.arena_half_width as int,
                    e.body.half_width as int,
                );
                let lim_y = spec_free_range(
                    self.arena_half_height as int,
                    e.body.half_height as int,
                );
                let m = e.motion->Some_0;
                &&& r->Some_0.start_time == start_time
                &&& r->Some_0.points@ == spec_predict_from(
                    m.position,
                    m.velocity,
                    substep_dt as int,
                    lim_x,
                    lim_y,
                    0,
                    count as nat,
                )
                &&& r->Some_0.points@.len() == count
                &&& forall|i: int|
                    0 <= i < count ==> (-lim_x <= #[trigger] r->Some_0.points@[i].position.x
                        <= lim_x && -lim_y <= r->Some_0.points@[i].position.y <= lim_y)
            }),
    {
        if id >= self.bodies.len() {
            return None;
        }
        let e = self.bodies[id];
        if !e.live {
            return None;
        }
        let m = match e.motion {
            Some(m) => m,
            None => {
                return None;
            },
        };
        let lim_x: i64 = if self.arena_half_width >= e.body.half_width {
            self.arena_half_width - e.body.half_width
        } else {
            0
        };
        let lim_y: i64 = if self.arena_half_height >= e.body.half_height {
            self.arena_half_height - e.body.half_height
        } else {
            0
        };
        let mut points: Vec<TrajPoint> = Vec::new();
        let mut p = m.position;
        let mut v = m.velocity;
        let mut t: i64 = 0;
        let mut k: usize = 0;
        proof {
            lemma_predict_shift_base(
                m.position,
                m.velocity,
                substep_dt as int,
                lim_x as int,
                lim_y as int,
                0,
                count as nat,
            );
        }
        while k < count
            invariant
                0 <= substep_dt <= DT_LIMIT,
                0 <= lim_x <= SIZE_LIMIT,
                0 <= lim_y <= SIZE_LIMIT,
                k <= count,
                count <= PREDICT_MAX_SAMPLES,
                t == k * substep_dt,
                within(p, POS_LIMIT as int),
                within(v, VEL_LIMIT as int),
                points@.len() == k,
                spec_predict_from(
                    m.position,
                    m.velocity,
                    substep_dt as int,
                    lim_x as int,
                    lim_y as int,
                    0,
                    count as nat,
                ) == points@ + spec_predict_from(
                    p,
                    v,
                    substep_dt as int,
                    lim_x as int,
                    lim_y as int,
                    t as int,
                    (count - k) as nat,
                ),
                forall|i: int|
                    0 <= i < k ==> (-lim_x <= #[trigger] points@[i].position.x <= lim_x && -lim_y
                        <= points@[i].position.y <= lim_y),
            decreases count - k,
        {
            let (p2, v2) = predict_substep(p, v, substep_dt, lim_x, lim_y);
            proof {
                assert((k + 1) * substep_dt == (t as int) + substep_dt && 0 <= (t as int)
                    + substep_dt <= 100010000000int) by (nonlinear_arith)
                    requires
                        t == k * substep_dt,
                        0 <= k <= 10000,
                        0 <= substep_dt <= 10000000,
                ;
            }
            let t2 = t + substep_dt;
            let sample = TrajPoint { time: t2, position: p2, velocity: v2 };
            proof {
                let dti = substep_dt as int;
                let rest = spec_predict_from(
                    p,
                    v,
                    dti,
                    lim_x as int,
                    lim_y as int,
                    t as int,
                    (count - k) as nat,
                );
                assert(rest == seq![sample] + spec_predict_from(
                    p2,
                    v2,
                    dti,
                    lim_x as int,
                    lim_y as int,
                    t as int + dti,
                    (count - k - 1) as nat,
                ));
                assert(points@ + rest =~= (points@ + seq![sample]) + spec_predict_from(
                    p2,
                    v2,
                    dti,
                    lim_x as int,
                    lim_y as int,
                    t as int + dti,
                    (count - k - 1) as nat,
                ));
            }
            points.push(sample);
            p = p2;
            v = v2;
            t = t2;
            k = k + 1;
        }
        proof {
            assert(spec_predict_from(
                p,
                v,
                substep_dt as int,
                lim_x as int,
                lim_y as int,
                t as int,
                0,
            ) =~= Seq::<TrajPoint>::empty());
            assert(points@ + Seq::<TrajPoint>::empty() =~= points@);
        }
        Some(Trajectory { start_time, points })
    }
}

/// The sample run from a state is unchanged by adding zero samples; a
/// small anchor for the forecasting loop.
proof fn lemma_predict_shift_base(
    p: Vec2,
    v: Vec2,
    dt: int,
    lim_x: int,
    lim_y: int,
    t: int,
    k: nat,
)
    ensures
        spec_predict_from(p, v, dt, lim_x, lim_y, t, k) == Seq::<TrajPoint>::empty()
            + spec_predict_from(p, v, dt, lim_x, lim_y, t, k),
{
    assert(Seq::<TrajPoint>::empty() + spec_predict_from(p, v, dt, lim_x, lim_y, t, k)
        =~= spec_predict_from(p, v, dt, lim_x, lim_y, t, k));
}

} // verus!
