//! Game-side rules layered on the physics core: scoring, base health,
//! per-pair event debouncing, bounce-audio cues, slow motion, and the
//! fixed-timestep accumulator of the driving loop.

use vstd::prelude::*;
use crate::units::{div_trunc, mag_of, mul_div_i64, spec_min, SCALE};
use crate::body::{clamped, spec_clamped, DT_LIMIT, MASS_LIMIT, POS_LIMIT, RATE_LIMIT, VEL_LIMIT};
use crate::damping::{damp_value, decay_factor, spec_damp, spec_decay};

verus! {

/// Largest base health, in subunits.
pub const HP_LIMIT: i64 = 1000000000000;

/// Longest frame the step accumulator accepts, in microseconds.
pub const FRAME_LIMIT: i64 = 1000000000;

/// Largest time scale, in subunits (ten times real time).
pub const TIME_SCALE_LIMIT: i64 = 10000;

/// Running score of a play session.
#[derive(Clone, Copy, PartialEq, Eq, Structural, Debug)]
pub struct Score {
    /// When the session started, on the caller's clock, in microseconds.
    pub timestamp: i64,
    /// Enemy-base hits landed.
    pub hits: i32,
    /// Balls lost past the player's base.
    pub miss: i32,
}

impl Score {
    /// A fresh score opened at the given time.
    pub fn new(timestamp: i64) -> (r: Score)
        ensures
            r.timestamp == timestamp,
            r.hits == 0,
            r.miss == 0,
    {
        Score { timestamp, hits: 0, miss: 0 }
    }

    /// Counts one landed hit; the count saturates rather than wrapping.
    pub fn record_hit(&mut self)
        ensures
            final(self).timestamp == old(self).timestamp,
            final(self).miss == old(self).miss,
            old(self).hits < i32::MAX ==> final(self).hits == old(self).hits + 1,
            old(self).hits == i32::MAX ==> final(self).hits == old(self).hits,
    {
        if self.hits < i32::MAX {
            self.hits = self.hits + 1;
        }
    }

    /// Counts one missed ball; the count saturates rather than wrapping.
    pub fn record_miss(&mut self)
        ensures
            final(self).timestamp == old(self).timestamp,
            final(self).hits == old(self).hits,
            old(self).miss < i32::MAX ==> final(self).miss == old(self).miss + 1,
            old(self).miss == i32::MAX ==> final(self).miss == old(self).miss,
    {
        if self.miss < i32::MAX {
            self.miss = self.miss + 1;
        }
    }
}

/// Damage one ball hit deals to a base: the ball's momentum
/// (`mass * speed`), but never more than the configured maximum and
/// never more than the health that is left.
pub open spec fn spec_hit_damage(hp: int, mass: int, speed: int, max_damage: int) -> int {
    spec_min(hp, spec_min(div_trunc(mass * speed, SCALE as int), max_damage))
}

/// Health pool of the base the player attacks.
#[derive(Clone, Copy, PartialEq, Eq, Structural, Debug)]
pub struct EnemyBase {
    /// Health left, in subunits; never negative.
    pub hp: i64,
}

impl EnemyBase {
    /// Health stays inside its range.
    pub open spec fn wf(self) -> bool {
        0 <= self.hp <= HP_LIMIT
    }

    /// A base with the given health (clamped into range).
    pub fn new(hp: i64) -> (r: EnemyBase)
        ensures
            r.wf(),
            r.hp == spec_clamped(hp as int, 0, HP_LIMIT as int),
    {
        EnemyBase { hp: clamped(hp, 0, HP_LIMIT) }
    }

    /// Applies one ball hit: subtracts the hit damage and reports
    /// whether the base fell — exactly when the health reaches zero.
    pub fn apply_hit(&mut self, mass: i64, speed: i64, max_damage: i64) -> (win: bool)
        requires
            old(self).wf(),
            0 <= mass <= MASS_LIMIT,
            0 <= speed <= VEL_LIMIT,
            0 <= max_damage <= HP_LIMIT,
        ensures
            final(self).wf(),
            final(self).hp == old(self).hp - spec_hit_damage(
                old(self).hp as int,
                mass as int,
                speed as int,
                max_damage as int,
            ),
            win <==> final(self).hp == 0,
    {
        proof {
            assert(mag_of(mass as int) * mag_of(speed as int) <= 10000000int * 100000000int)
                by (nonlinear_arith)
                requires
                    0 <= mass <= 10000000,
                    0 <= speed <= 100000000,
            ;
            vstd::arithmetic::div_mod::lemma_div_pos_is_pos(
                (mass as int) * (speed as int),
                SCALE as int,
            );
        }
        let momentum = mul_div_i64(mass, speed, SCALE);
        let capped = if momentum <= max_damage {
            momentum
        } else {
            max_damage
        };
        let damage = if self.hp <= capped {
            self.hp
        } else {
            capped
        };
        self.hp = self.hp - damage;
        self.hp == 0
    }
}

/// Ball reserve of the base the player defends.
#[derive(Clone, Copy, PartialEq, Eq, Structural, Debug)]
pub struct PlayerBase {
    /// Balls left; never negative.
    pub ball_count: i64,
}

impl PlayerBase {
    /// The reserve stays inside its range.
    pub open spec fn wf(self) -> bool {
        0 <= self.ball_count <= 1000000
    }

    /// A base with the given reserve (clamped into range).
    pub fn new(ball_count: i64) -> (r: PlayerBase)
        ensures
            r.wf(),
            r.ball_count == spec_clamped(ball_count as int, 0, 1000000),
    {
        PlayerBase { ball_count: clamped(ball_count, 0, 1000000) }
    }

    /// Registers one ball lost past the base: the game is lost exactly
    /// when the reserve was already empty; otherwise one ball is spent.
    pub fn register_miss(&mut self) -> (lose: bool)
        requires
            old(self).wf(),
        ensures
            final(self).wf(),
            lose <==> old(self).ball_count == 0,
            lose ==> final(self).ball_count == 0,
            !lose ==> final(self).ball_count == old(self).ball_count - 1,
    {
        if self.ball_count == 0 {
            true
        } else {
            self.ball_count = self.ball_count - 1;
            false
        }
    }
}

/// How loud and how lateral a bounce sounds: the relative speed mapped
/// onto `[0, SCALE]` between the audible thresholds, and the contact's
/// horizontal position mapped onto `[0, SCALE]` across the arena.
#[derive(Clone, Copy, PartialEq, Eq, Structural, Debug)]
pub struct BounceCue {
    /// Loudness in subunits of one.
    pub intensity: i64,
    /// Stereo position in subunits of one; half is centre.
    pub panning: i64,
}

/// The intensity of a bounce at the given relative speed.
pub open spec fn spec_bounce_intensity(speed: int, min_speed: int, max_speed: int) -> int {
    spec_clamped(
        div_trunc((speed - min_speed) * (SCALE as int), max_speed - min_speed),
        0,
        SCALE as int,
    )
}

/// The stereo position of a contact at `location_x`.
pub open spec fn spec_bounce_panning(location_x: int, arena_half_width: int) -> int {
    spec_clamped(
        div_trunc(location_x * (SCALE as int), 2 * arena_half_width) + 500,
        0,
        SCALE as int,
    )
}

/// Decides whether a bounce is audible and, when it is, its cue.  A
/// bounce slower than `min_speed` is silent; a faster one sounds with an
/// intensity growing linearly up to `max_speed` and pans with the
/// contact's horizontal position.
pub fn bounce_audio_cue(
    relative_speed: i64,
    min_speed: i64,
    max_speed: i64,
    location_x: i64,
    arena_half_width: i64,
) -> (r: Option<BounceCue>)
    requires
        0 <= relative_speed <= 1000000000,
        0 <= min_speed < max_speed <= 1000000000,
        mag_of(location_x as int) <= POS_LIMIT,
        1 <= arena_half_width <= 1000000000,
    ensures
        r is Some <==> relative_speed > min_speed,
        r is Some ==> r->Some_0.intensity == spec_bounce_intensity(
            relative_speed as int,
            min_speed as int,
            max_speed as int,
        ),
        r is Some ==> r->Some_0.panning == spec_bounce_panning(
            location_x as int,
            arena_half_width as int,
        ),
        r is Some ==> 0 <= r->Some_0.intensity <= SCALE && 0 <= r->Some_0.panning <= SCALE,
{
    if relative_speed <= min_speed {
        return None;
    }
    proof {
        assert(mag_of((relative_speed - min_speed) as int) * mag_of(SCALE as int)
            <= 1000000000000int && mag_of(location_x as int) * mag_of(SCALE as int)
            <= 1000000000000000int) by (nonlinear_arith)
            requires
                mag_of((relative_speed - min_speed) as int) <= 1000000000,
                mag_of(location_x as int) <= 1000000000000,
                mag_of(SCALE as int) == 1000,
        ;
    }
    let spread = mul_div_i64(relative_speed - min_speed, SCALE, max_speed - min_speed);
    let intensity = clamped(spread, 0, SCALE);
    let lateral = mul_div_i64(location_x, SCALE, 2 * arena_half_width);
    let panning = clamped(lateral + 500, 0, SCALE);
    Some(BounceCue { intensity, panning })
}

/// The key under which a pair of identifiers is debounced, ordered so
/// that both orders of the same pair share one key.
pub open spec fn spec_pair_key(a: int, b: int) -> int {
    if a <= b {
        a * 0x100000000 + b
    } else {
        b * 0x100000000 + a
    }
}

/// The stamp stored for a key, if any (first match).
pub open spec fn spec_cooldown_lookup(entries: Seq<(u64, i64)>, key: int, k: int) -> Option<i64>
    decreases entries.len() - k,
{
    if k < 0 || entries.len() <= k {
        None
    } else if entries[k].0 == key {
        Some(entries[k].1)
    } else {
        spec_cooldown_lookup(entries, key, k + 1)
    }
}

/// The entries with the first match for `key` restamped to `now`, or
/// with a new entry appended when there is none.
pub open spec fn spec_cooldown_upsert(entries: Seq<(u64, i64)>, key: int, now: i64, k: int) -> Seq<
    (u64, i64),
>
    decreases entries.len() - k,
{
    if k < 0 || entries.len() <= k {
        entries.push((key as u64, now))
    } else if entries[k].0 == key {
        entries.update(k, (key as u64, now))
    } else {
        spec_cooldown_upsert(entries, key, now, k + 1)
    }
}

/// Per-pair cooldown state: one stamp per unordered pair of body
/// identifiers, consulted before re-raising a semantically duplicate
/// event (a repeated collision of the same pair across steps).
pub struct Cooldown {
    /// Minimum quiet time between two firings of one pair, in
    /// microseconds.
    pub interval: i64,
    /// Last firing per pair key.
    pub entries: Vec<(u64, i64)>,
}

impl Cooldown {
    /// The interval and every stored stamp are inside their ranges.
    pub open spec fn wf(self) -> bool {
        &&& 0 <= self.interval <= 1000000000000
        &&& forall|i: int|
            0 <= i < self.entries@.len() ==> 0 <= (#[trigger] self.entries@[i]).1
                <= 1000000000000000
    }

    /// A table with the given interval (clamped to be nonnegative) and
    /// no history: every pair's first event fires.
    pub fn new(interval: i64) -> (r: Cooldown)
        ensures
            r.wf(),
            r.interval == spec_clamped(interval as int, 0, 1000000000000),
            r.entries@.len() == 0,
    {
        Cooldown { interval: clamped(interval, 0, 1000000000000), entries: Vec::new() }
    }

    /// Consults and updates the table for the pair `(a, b)` at time
    /// `now`: fires when the pair never fired before or its last firing
    /// is at least the interval ago, and then restamps the pair.  A
    /// suppressed event leaves the table unchanged.
    pub fn should_fire(&mut self, a: usize, b: usize, now: i64) -> (fire: bool)
        requires
            a < 0x100000000,
            b < 0x100000000,
            0 <= now <= 1000000000000000,
            old(self).wf(),
        ensures
            final(self).wf(),
            final(self).interval == old(self).interval,
            fire <==> ({
                match spec_cooldown_lookup(old(self).entries@, spec_pair_key(a as int, b as int), 0) {
                    None => true,
                    Some(last) => now - last >= old(self).interval,
                }
            }),
            fire ==> final(self).entries@ == spec_cooldown_upsert(
                old(self).entries@,
                spec_pair_key(a as int, b as int),
                now,
                0,
            ),
            !fire ==> final(self).entries@ == old(self).entries@,
    {
        let lo: u64 = if a <= b {
            a as u64
        } else {
            b as u64
        };
        let hi: u64 = if a <= b {
            b as u64
        } else {
            a as u64
        };
        let key: u64 = lo * 0x100000000 + hi;
        proof {
            assert((lo as int) * 0x100000000 + hi == spec_pair_key(a as int, b as int));
        }
        let n = self.entries.len();
        let mut k: usize = 0;
        while k < n
            invariant
                self.wf(),
                self.entries@ == old(self).entries@,
                self.interval == old(self).interval,
                n == self.entries@.len(),
                k <= n,
                0 <= now <= 1000000000000000,
                key == spec_pair_key(a as int, b as int),
                spec_cooldown_lookup(self.entries@, key as int, 0) == spec_cooldown_lookup(
                    self.entries@,
                    key as int,
                    k as int,
                ),
                spec_cooldown_upsert(self.entries@, key as int, now, 0) == spec_cooldown_upsert(
                    self.entries@,
                    key as int,
                    now,
                    k as int,
                ),
            decreases n - k,
        {
            let entry = self.entries[k];
            proof {
                assert(0 <= (self.entries@[k as int]).1 <= 1000000000000000);
            }
            if entry.0 == key {
                proof {
                    assert(spec_cooldown_lookup(self.entries@, key as int, k as int) == Some(
                        self.entries@[k as int].1,
                    ));
                    assert(spec_cooldown_upsert(self.entries@, key as int, now, k as int)
                        == self.entries@.update(k as int, (key, now)));
                }
                if now - entry.1 >= self.interval {
                    self.entries.set(k, (key, now));
                    return true;
                } else {
                    return false;
                }
            }
            k = k + 1;
        }
        self.entries.push((key, now));
        true
    }
}

/// Global slow-motion factor: one is real time.
pub struct TimeScale(pub i64);

impl TimeScale {
    /// The factor stays inside its range.
    pub open spec fn wf(self) -> bool {
        0 <= self.0 <= TIME_SCALE_LIMIT
    }

    /// Back to real time.
    pub fn reset(&mut self)
        ensures
            final(self).0 == SCALE,
            final(self).wf(),
    {
        self.0 = SCALE;
    }

    /// Damps the factor toward a target (clamped into range), as the
    /// slow-motion effect does every frame.
    pub fn damp_toward(&mut self, target: i64, rate: i64, dt: i64)
        requires
            old(self).wf(),
            0 <= rate <= RATE_LIMIT,
            0 <= dt <= DT_LIMIT,
        ensures
            final(self).wf(),
            final(self).0 == spec_damp(
                old(self).0 as int,
                spec_clamped(target as int, 0, TIME_SCALE_LIMIT as int),
                spec_decay(rate as int, dt as int),
            ),
    {
        let goal = clamped(target, 0, TIME_SCALE_LIMIT);
        let decay = decay_factor(rate, dt);
        self.0 = damp_value(self.0, goal, decay);
    }
}

impl Default for TimeScale {
    /// Real time.
    fn default() -> (r: TimeScale)
        ensures
            r.0 == SCALE,
            r.wf(),
    {
        TimeScale(SCALE)
    }
}

/// The fixed-timestep accumulator of the driving loop: it turns frames
/// of varying length into a whole number of equal physics steps,
/// carrying the remainder forward, so that the simulation is
/// deterministic regardless of frame-rate variance.
pub struct StepAccumulator {
    /// The fixed physics timestep, in microseconds.
    pub step: i64,
    /// Wall-clock time not yet simulated, in microseconds; always less
    /// than one step.
    pub remainder: i64,
}

impl StepAccumulator {
    /// The carried remainder is less than one step.
    pub open spec fn wf(self) -> bool {
        1 <= self.step <= DT_LIMIT && 0 <= self.remainder < self.step
    }

    /// An accumulator for the given fixed timestep (clamped into range),
    /// with nothing pending.
    pub fn new(step: i64) -> (r: StepAccumulator)
        ensures
            r.wf(),
            r.step == spec_clamped(step as int, 1, DT_LIMIT as int),
            r.remainder == 0,
    {
        StepAccumulator { step: clamped(step, 1, DT_LIMIT), remainder: 0 }
    }

    /// Accounts one frame of `frame_dt` microseconds (clamped to the
    /// frame limit) and returns how many whole physics steps to run:
    /// exactly the accumulated time divided by the step, with the
    /// remainder carried into the next frame.
    pub fn advance(&mut self, frame_dt: i64) -> (steps: i64)
        requires
            old(self).wf(),
        ensures
            final(self).wf(),
            final(self).step == old(self).step,
            ({
                let total = old(self).remainder + spec_clamped(
                    frame_dt as int,
                    0,
                    FRAME_LIMIT as int,
                );
                &&& steps == total / (old(self).step as int)
                &&& final(self).remainder == total % (old(self).step as int)
                &&& total == steps * old(self).step + final(self).remainder
            }),
    {
        let eff = clamped(frame_dt, 0, FRAME_LIMIT);
        let total = self.remainder + eff;
        let steps = total / self.step;
        let rem = total % self.step;
        proof {
            vstd::arithmetic::div_mod::lemma_fundamental_div_mod(total as int, self.step as int);
            vstd::arithmetic::div_mod::lemma_mod_division_less_than_divisor(
                total as int,
                self.step as int,
            );
            vstd::arithmetic::div_mod::lemma_div_pos_is_pos(total as int, self.step as int);
            assert((self.step as int) * ((total as int) / (self.step as int)) == ((total as int) / (
            self.step as int)) * (self.step as int)) by (nonlinear_arith);
        }
        self.remainder = rem;
        steps
    }
}

} // verus!
