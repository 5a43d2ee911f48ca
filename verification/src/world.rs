//! The rigid-body store and the fixed-timestep world step.
//!
//! Bodies are registered once and afterwards addressed by the stable
//! identifier that registration returned.  A body takes part in a step
//! only while it carries a motion state.  One step integrates every
//! active body, detects every overlapping accepted pair, resolves the
//! detected contacts in order, and returns the collision events of the
//! step.  The step is an exact function of the prior state and the
//! timestep, which is what makes the simulation deterministic.

use vstd::prelude::*;
use crate::vec2::Vec2;
use crate::body::{Motion, RigidBody, SIZE_LIMIT, DT_LIMIT, spec_clamped, clamped};
use crate::collide::{
    detect_contact, spec_contact_value, spec_overlapping, spec_pair_matches, Contact,
};
use crate::damping::{lemma_decay_range, lemma_damp_no_overshoot, spec_damp, spec_decay};
use crate::integrate::{
    integrate_motion, lemma_clamp_speed_cap, spec_clamp_speed, spec_integrate_motion,
    spec_speed_sq, spec_step_velocity,
};
use crate::resolve::{resolve_contact, spec_resolve_motions};

verus! {

/// One registered body: its attributes, whether the registration is
/// still live, and — while the body is active — its motion state.
#[derive(Clone, Copy, Debug)]
pub struct BodyEntry {
    pub body: RigidBody,
    pub live: bool,
    pub motion: Option<Motion>,
}

impl BodyEntry {
    /// The entry's attributes and motion are inside their ranges.
    pub open spec fn wf(self) -> bool {
        self.body.wf() && (self.motion is Some ==> self.motion->Some_0.wf())
    }

    /// The entry takes part in integration and collision this step.
    pub open spec fn active(self) -> bool {
        self.live && self.motion is Some
    }
}

/// A collision raised by one step: the identifiers of the two
/// participants and their contact.  One event is raised per overlapping
/// pair per step; repeats across steps are expected and are debounced by
/// consumers, not suppressed here.
#[derive(Clone, Copy, PartialEq, Eq, Structural, Debug)]
pub struct CollisionEvent {
    pub first: usize,
    pub second: usize,
    pub contact: Contact,
}

/// One entry after the integration phase: an active entry gets its
/// motion advanced, any other entry is untouched.
pub open spec fn spec_entry_after_integrate(e: BodyEntry, dt: int) -> BodyEntry {
    if e.active() {
        BodyEntry {
            body: e.body,
            live: e.live,
            motion: Some(spec_integrate_motion(e.body, e.motion->Some_0, dt)),
        }
    } else {
        e
    }
}

/// The whole store after the integration phase.
pub open spec fn spec_integrate_seq(s: Seq<BodyEntry>, dt: int) -> Seq<BodyEntry> {
    s.map_values(|e: BodyEntry| spec_entry_after_integrate(e, dt))
}

/// The events contributed by the pair `(i, j)`: one event when both
/// entries are active, their masks accept each other and their boxes
/// overlap, none otherwise.
pub open spec fn spec_pair_events(s: Seq<BodyEntry>, i: int, j: int) -> Seq<CollisionEvent> {
    if s[i].active() && s[j].active() && spec_pair_matches(s[i].body, s[j].body)
        && spec_overlapping(
        s[i].body,
        s[i].motion->Some_0.position,
        s[j].body,
        s[j].motion->Some_0.position,
    ) {
        seq![
            CollisionEvent {
                first: i as usize,
                second: j as usize,
                contact: spec_contact_value(
                    s[i].body,
                    s[i].motion->Some_0.position,
                    s[j].body,
                    s[j].motion->Some_0.position,
                ),
            },
        ]
    } else {
        Seq::empty()
    }
}

/// The events of all pairs from `(i, j)` on, in pair order (`i`
/// ascending, then `j`).
pub open spec fn spec_detect_from(s: Seq<BodyEntry>, i: int, j: int) -> Seq<CollisionEvent>
    decreases s.len() - i, s.len() - j,
{
    if i < 0 || j <= i || s.len() <= i {
        Seq::empty()
    } else if s.len() <= j {
        spec_detect_from(s, i + 1, i + 2)
    } else {
        spec_pair_events(s, i, j) + spec_detect_from(s, i, j + 1)
    }
}

/// All events one step raises on the integrated store.
pub open spec fn spec_detect_events(s: Seq<BodyEntry>) -> Seq<CollisionEvent> {
    spec_detect_from(s, 0, 1)
}

/// An event refers to two distinct live, active entries and carries a
/// well-formed contact; resolution silently skips any other event.
pub open spec fn spec_event_applicable(s: Seq<BodyEntry>, ev: CollisionEvent) -> bool {
    &&& ev.first < s.len()
    &&& ev.second < s.len()
    &&& ev.first != ev.second
    &&& s[ev.first as int].active()
    &&& s[ev.second as int].active()
    &&& ev.contact.sign == 1 || ev.contact.sign == -1
    &&& 0 <= ev.contact.penetration <= 4000000000
}

/// The store after resolving one event.
pub open spec fn spec_apply_event(s: Seq<BodyEntry>, ev: CollisionEvent) -> Seq<BodyEntry> {
    if spec_event_applicable(s, ev) {
        let ea = s[ev.first as int];
        let eb = s[ev.second as int];
        let mm = spec_resolve_motions(
            ea.body,
            eb.body,
            ea.motion->Some_0,
            eb.motion->Some_0,
            ev.contact.axis is X,
            ev.contact.sign as int,
            ev.contact.penetration as int,
        );
        s.update(
            ev.first as int,
            BodyEntry { body: ea.body, live: ea.live, motion: Some(mm.0) },
        ).update(ev.second as int, BodyEntry { body: eb.body, live: eb.live, motion: Some(mm.1) })
    } else {
        s
    }
}

/// The store after resolving the events from index `k` on, in order.
pub open spec fn spec_resolve_from(
    s: Seq<BodyEntry>,
    evs: Seq<CollisionEvent>,
    k: int,
) -> Seq<BodyEntry>
    decreases evs.len() - k,
{
    if k < 0 || evs.len() <= k {
        s
    } else {
        spec_resolve_from(spec_apply_event(s, evs[k]), evs, k + 1)
    }
}

/// Everything one step does — integrate, detect, resolve — as an exact
/// function of the store and the timestep.
pub open spec fn spec_world_step(s: Seq<BodyEntry>, dt: int) -> (Seq<BodyEntry>, Seq<
    CollisionEvent,
>) {
    let s1 = spec_integrate_seq(s, dt);
    let evs = spec_detect_events(s1);
    (spec_resolve_from(s1, evs, 0), evs)
}

/// Speed cap at the step level: after the integration phase of a step,
/// no active body's squared speed exceeds its own speed cap squared.
pub proof fn lemma_step_speed_cap(s: Seq<BodyEntry>, dt: int, i: int)
    requires
        0 <= i < s.len(),
        s[i].wf(),
        0 <= dt <= DT_LIMIT,
    ensures
        ({
            let e = spec_integrate_seq(s, dt)[i];
            e.active() ==> spec_speed_sq(
                e.motion->Some_0.velocity.x as int,
                e.motion->Some_0.velocity.y as int,
            ) <= s[i].body.max_speed * s[i].body.max_speed
        }),
{
    assert(spec_integrate_seq(s, dt)[i] == spec_entry_after_integrate(s[i], dt));
    if s[i].active() {
        let body = s[i].body;
        let m = s[i].motion->Some_0;
        let decay = spec_decay(body.damp_rate as int, dt);
        lemma_decay_range(body.damp_rate as int, dt);
        lemma_damp_no_overshoot(m.velocity.x as int, m.target.x as int, decay);
        lemma_damp_no_overshoot(m.velocity.y as int, m.target.y as int, decay);
        let dx = spec_damp(m.velocity.x as int, m.target.x as int, decay);
        let dy = spec_damp(m.velocity.y as int, m.target.y as int, decay);
        lemma_clamp_speed_cap(dx, dy, body.max_speed as int);
        let (rx, ry) = spec_step_velocity(body, m, dt);
        assert((rx, ry) == spec_clamp_speed(dx, dy, body.max_speed as int));
    }
}

/// The store after a whole sequence of steps.
pub open spec fn spec_run(s: Seq<BodyEntry>, dts: Seq<int>) -> Seq<BodyEntry>
    decreases dts.len(),
{
    if dts.len() == 0 {
        s
    } else {
        spec_run(spec_world_step(s, dts[0]).0, dts.subrange(1, dts.len() as int))
    }
}

/// The event logs of a whole sequence of steps, one per step.
pub open spec fn spec_run_events(s: Seq<BodyEntry>, dts: Seq<int>) -> Seq<Seq<CollisionEvent>>
    decreases dts.len(),
{
    if dts.len() == 0 {
        Seq::empty()
    } else {
        seq![spec_world_step(s, dts[0]).1] + spec_run_events(
            spec_world_step(s, dts[0]).0,
            dts.subrange(1, dts.len() as int),
        )
    }
}

/// Determinism: `step` pins its new store and its event list to
/// `spec_world_step`, an exact function of the prior store and the
/// timestep.  Hence two runs from equal stores through the same sequence
/// of timesteps end in equal stores and raise identical event logs —
/// there is no hidden state and no nondeterminism anywhere in a step.
pub proof fn lemma_run_deterministic(s1: Seq<BodyEntry>, s2: Seq<BodyEntry>, dts: Seq<int>)
    requires
        s1 == s2,
    ensures
        spec_run(s1, dts) == spec_run(s2, dts),
        spec_run_events(s1, dts) == spec_run_events(s2, dts),
{
}

/// The world: arena half extents and the store of registered bodies.
pub struct World {
    pub arena_half_width: i64,
    pub arena_half_height: i64,
    pub bodies: Vec<BodyEntry>,
}

impl World {
    /// Every entry is well-formed and the arena extents are in range.
    pub open spec fn wf(self) -> bool {
        &&& 0 <= self.arena_half_width <= SIZE_LIMIT
        &&& 0 <= self.arena_half_height <= SIZE_LIMIT
        &&& forall|i: int| 0 <= i < self.bodies@.len() ==> self.bodies@[i].wf()
    }

    /// An empty world with the given arena half extents (clamped into
    /// range); the extents are fixed for the world's lifetime.
    pub fn new(arena_half_width: i64, arena_half_height: i64) -> (r: World)
        ensures
            r.wf(),
            r.arena_half_width == spec_clamped(arena_half_width as int, 0, SIZE_LIMIT as int),
            r.arena_half_height == spec_clamped(arena_half_height as int, 0, SIZE_LIMIT as int),
            r.bodies@.len() == 0,
    {
        World {
            arena_half_width: clamped(arena_half_width, 0, SIZE_LIMIT),
            arena_half_height: clamped(arena_half_height, 0, SIZE_LIMIT),
            bodies: Vec::new(),
        }
    }

    /// Number of slots in the store (live or not).
    pub fn body_count(&self) -> (r: usize)
        ensures
            r == self.bodies@.len(),
    {
        self.bodies.len()
    }

    /// Registers a body and returns its stable identifier.  Every
    /// attribute is clamped to its nearest valid value, so a degenerate
    /// configuration is corrected rather than rejected.  The new body
    /// has no motion yet: it sits out of integration and collision until
    /// one is attached.
    pub fn register_body(&mut self, body: RigidBody) -> (id: usize)
        requires
            old(self).wf(),
            old(self).bodies@.len() < 1000000,
        ensures
            final(self).wf(),
            id == old(self).bodies@.len(),
            final(self).bodies@ == old(self).bodies@.push(
                BodyEntry {
                    body: RigidBody::spec_new(
                        body.half_width,
                        body.half_height,
                        body.mass,
                        body.restitution,
                        body.friction,
                        body.layer,
                        body.mask,
                        body.max_speed,
                        body.damp_rate,
                    ),
                    live: true,
                    motion: None,
                },
            ),
            final(self).arena_half_width == old(self).arena_half_width,
            final(self).arena_half_height == old(self).arena_half_height,
    {
        let checked = RigidBody::new(
            body.half_width,
            body.half_height,
            body.mass,
            body.restitution,
            body.friction,
            body.layer,
            body.mask,
            body.max_speed,
            body.damp_rate,
        );
        let id = self.bodies.len();
        self.bodies.push(BodyEntry { body: checked, live: true, motion: None });
        id
    }

    /// Removes a body from the store: the slot stays, but the body no
    /// longer takes part in anything.  An unknown identifier is ignored.
    pub fn unregister_body(&mut self, id: usize)
        requires
            old(self).wf(),
        ensures
            final(self).wf(),
            final(self).bodies@.len() == old(self).bodies@.len(),
            id < old(self).bodies@.len() ==> final(self).bodies@ == old(self).bodies@.update(
                id as int,
                BodyEntry { body: old(self).bodies@[id as int].body, live: false, motion: None },
            ),
            id >= old(self).bodies@.len() ==> final(self).bodies@ == old(self).bodies@,
            final(self).arena_half_width == old(self).arena_half_width,
            final(self).arena_half_height == old(self).arena_half_height,
    {
        if id < self.bodies.len() {
            let e = self.bodies[id];
            self.bodies.set(id, BodyEntry { body: e.body, live: false, motion: None });
        }
    }

    /// Activates a body: attaches a motion state with the given position
    /// and velocity (clamped into range) and a zero control target.  An
    /// unknown or unregistered identifier is ignored.
    pub fn attach_motion(&mut self, id: usize, position: Vec2, velocity: Vec2)
        requires
            old(self).wf(),
        ensures
            final(self).wf(),
            final(self).bodies@.len() == old(self).bodies@.len(),
            id < old(self).bodies@.len() && old(self).bodies@[id as int].live ==> final(self).bodies@ == old(self).bodies@.update(
                id as int,
                BodyEntry {
                    body: old(self).bodies@[id as int].body,
                    live: true,
                    motion: Some(
                        Motion::spec_new(position, velocity, Vec2 { x: 0i64, y: 0i64 }),
                    ),
                },
            ),
            !(id < old(self).bodies@.len() && old(self).bodies@[id as int].live) ==> final(self).bodies@ == old(self).bodies@,
            final(self).arena_half_width == old(self).arena_half_width,
            final(self).arena_half_height == old(self).arena_half_height,
    {
        if id < self.bodies.len() {
            let e = self.bodies[id];
            if e.live {
                let m = Motion::new(position, velocity, Vec2::zero());
                self.bodies.set(id, BodyEntry { body: e.body, live: true, motion: Some(m) });
            }
        }
    }

    /// Deactivates a body: removes its motion state, taking it out of
    /// integration and collision.  An unknown identifier is ignored.
    pub fn detach_motion(&mut self, id: usize)
        requires
            old(self).wf(),
        ensures
            final(self).wf(),
            final(self).bodies@.len() == old(self).bodies@.len(),
            id < old(self).bodies@.len() ==> final(self).bodies@ == old(self).bodies@.update(
                id as int,
                BodyEntry {
                    body: old(self).bodies@[id as int].body,
                    live: old(self).bodies@[id as int].live,
                    motion: None,
                },
            ),
            id >= old(self).bodies@.len() ==> final(self).bodies@ == old(self).bodies@,
            final(self).arena_half_width == old(self).arena_half_width,
            final(self).arena_half_height == old(self).arena_half_height,
    {
        if id < self.bodies.len() {
            let e = self.bodies[id];
            self.bodies.set(id, BodyEntry { body: e.body, live: e.live, motion: None });
        }
    }

    /// Steers an active body: sets the velocity its integrator damping
    /// will pull toward (clamped to the control range).  Ignored unless
    /// the body is live and has a motion.
    pub fn set_control(&mut self, id: usize, target: Vec2)
        requires
            old(self).wf(),
        ensures
            final(self).wf(),
            final(self).bodies@.len() == old(self).bodies@.len(),
            id < old(self).bodies@.len() && old(self).bodies@[id as int].active() ==> final(self).bodies@ == old(self).bodies@.update(
                id as int,
                BodyEntry {
                    body: old(self).bodies@[id as int].body,
                    live: true,
                    motion: Some(
                        Motion {
                            position: old(self).bodies@[id as int].motion->Some_0.position,
                            velocity: old(self).bodies@[id as int].motion->Some_0.velocity,
                            target: Motion::spec_new(
                                old(self).bodies@[id as int].motion->Some_0.position,
                                old(self).bodies@[id as int].motion->Some_0.velocity,
                                target,
                            ).target,
                        },
                    ),
                },
            ),
            !(id < old(self).bodies@.len() && old(self).bodies@[id as int].active()) ==> final(self).bodies@ == old(self).bodies@,
            final(self).arena_half_width == old(self).arena_half_width,
            final(self).arena_half_height == old(self).arena_half_height,
    {
        if id < self.bodies.len() {
            let e = self.bodies[id];
            if e.live {
                if let Some(m) = e.motion {
                    let m2 = Motion::new(m.position, m.velocity, target);
                    let kept = Motion { position: m.position, velocity: m.velocity, target: m2.target };
                    self.bodies.set(id, BodyEntry { body: e.body, live: true, motion: Some(kept) });
                }
            }
        }
    }

    /// The physical attributes of a body, or `None` for an unknown or
    /// unregistered identifier.
    pub fn get_body(&self, id: usize) -> (r: Option<RigidBody>)
        ensures
            id < self.bodies@.len() && self.bodies@[id as int].live ==> r == Some(
                self.bodies@[id as int].body,
            ),
            !(id < self.bodies@.len() && self.bodies@[id as int].live) ==> r is None,
    {
        if id < self.bodies.len() {
            let e = self.bodies[id];
            if e.live {
                Some(e.body)
            } else {
                None
            }
        } else {
            None
        }
    }

    /// Whether an active body's centre has left the arena by more than
    /// `margin` on either axis, or `None` while the body is inactive or
    /// unknown.  The surroundings consult this to park a ball that
    /// escaped.
    pub fn out_of_bounds(&self, id: usize, margin: i64) -> (r: Option<bool>)
        requires
            self.wf(),
            0 <= margin <= SIZE_LIMIT,
        ensures
            r is Some <==> id < self.bodies@.len() && self.bodies@[id as int].active(),
            r is Some ==> ({
                let p = self.bodies@[id as int].motion->Some_0.position;
                r->Some_0 <==> (p.x > self.arena_half_width + margin || p.x < -self.arena_half_width
                    - margin || p.y > self.arena_half_height + margin || p.y
                    < -self.arena_half_height - margin)
            }),
    {
        if id >= self.bodies.len() {
            return None;
        }
        let e = self.bodies[id];
        if !e.live {
            return None;
        }
        match e.motion {
            None => None,
            Some(m) => {
                let p = m.position;
                Some(
                    p.x > self.arena_half_width + margin || p.x < -self.arena_half_width - margin
                        || p.y > self.arena_half_height + margin || p.y < -self.arena_half_height
                        - margin,
                )
            },
        }
    }

    /// The motion state of a body, or `None` while it is inactive or
    /// unknown.
    pub fn get_motion(&self, id: usize) -> (r: Option<Motion>)
        ensures
            id < self.bodies@.len() ==> r == self.bodies@[id as int].motion,
            id >= self.bodies@.len() ==> r is None,
    {
        if id < self.bodies.len() {
            self.bodies[id].motion
        } else {
            None
        }
    }

    /// Advances the world by exactly one physics tick: integrates every
    /// active body, detects every overlapping accepted pair at the new
    /// positions, resolves the contacts in pair order, and returns the
    /// events of this tick in that order.  The result is an exact
    /// function of the prior store and `dt`.
    pub fn step(&mut self, dt: i64) -> (events: Vec<CollisionEvent>)
        requires
            old(self).wf(),
            0 <= dt <= DT_LIMIT,
        ensures
            final(self).wf(),
            final(self).arena_half_width == old(self).arena_half_width,
            final(self).arena_half_height == old(self).arena_half_height,
            final(self).bodies@.len() == old(self).bodies@.len(),
            (final(self).bodies@, events@) == spec_world_step(old(self).bodies@, dt as int),
    {
        let ghost s0 = self.bodies@;
        let n = self.bodies.len();
        // integration phase
        let mut i: usize = 0;
        while i < n
            invariant
                self.wf(),
                n == self.bodies@.len(),
                n == s0.len(),
                i <= n,
                0 <= dt <= DT_LIMIT,
                forall|k: int| 0 <= k < i ==> self.bodies@[k] == spec_entry_after_integrate(s0[k], dt as int),
                forall|k: int| i <= k < n ==> self.bodies@[k] == s0[k],
                self.arena_half_width == old(self).arena_half_width,
                self.arena_half_height == old(self).arena_half_height,
            decreases n - i,
        {
            let e = self.bodies[i];
            if e.live {
                if let Some(m) = e.motion {
                    let m2 = integrate_motion(&e.body, &m, dt);
                    self.bodies.set(i, BodyEntry { body: e.body, live: true, motion: Some(m2) });
                }
            }
            i = i + 1;
        }
        proof {
            assert(self.bodies@ =~= spec_integrate_seq(s0, dt as int));
        }
        let ghost s1 = self.bodies@;
        // detection phase
        let mut events: Vec<CollisionEvent> = Vec::new();
        let mut a: usize = 0;
        while a < n
            invariant
                self.wf(),
                self.bodies@ == s1,
                n == s1.len(),
                a <= n,
                spec_detect_events(s1) == events@ + spec_detect_from(s1, a as int, a + 1),
            decreases n - a,
        {
            let mut b: usize = a + 1;
            while b < n
                invariant
                    self.wf(),
                    self.bodies@ == s1,
                    n == s1.len(),
                    a < n,
                    a < b <= n,
                    spec_detect_events(s1) == events@ + spec_detect_from(s1, a as int, b as int),
                decreases n - b,
            {
                let ea = self.bodies[a];
                let eb = self.bodies[b];
                if ea.live && eb.live {
                    if let (Some(ma), Some(mb)) = (ea.motion, eb.motion) {
                        if let Some(c) = detect_contact(&ea.body, ma.position, &eb.body, mb.position) {
                            let ev = CollisionEvent { first: a, second: b, contact: c };
                            proof {
                                assert(spec_pair_events(s1, a as int, b as int) =~= seq![ev]);
                                assert(events@ + spec_pair_events(s1, a as int, b as int) + spec_detect_from(
                                    s1,
                                    a as int,
                                    b + 1,
                                ) =~= (events@ + seq![ev]) + spec_detect_from(s1, a as int, b + 1));
                            }
                            events.push(ev);
                        } else {
                            proof {
                                assert(spec_pair_events(s1, a as int, b as int) =~= Seq::<
                                    CollisionEvent,
                                >::empty());
                                assert(events@ + spec_detect_from(s1, a as int, b as int) =~= events@
                                    + spec_detect_from(s1, a as int, b + 1));
                            }
                        }
                    } else {
                        proof {
                            assert(spec_pair_events(s1, a as int, b as int) =~= Seq::<
                                CollisionEvent,
                            >::empty());
                            assert(events@ + spec_detect_from(s1, a as int, b as int) =~= events@
                                + spec_detect_from(s1, a as int, b + 1));
                        }
                    }
                } else {
                    proof {
                        assert(spec_pair_events(s1, a as int, b as int) =~= Seq::<
                            CollisionEvent,
                        >::empty());
                        assert(events@ + spec_detect_from(s1, a as int, b as int) =~= events@
                            + spec_detect_from(s1, a as int, b + 1));
                    }
                }
                b = b + 1;
            }
            a = a + 1;
        }
        proof {
            assert(spec_detect_from(s1, n as int, n as int + 1) =~= Seq::<CollisionEvent>::empty());
            assert(events@ + Seq::<CollisionEvent>::empty() =~= events@);
            assert(events@ == spec_detect_events(s1));
        }
        // resolution phase
        let m_events = events.len();
        let mut k: usize = 0;
        while k < m_events
            invariant
                self.wf(),
                n == self.bodies@.len(),
                m_events == events@.len(),
                k <= m_events,
                spec_resolve_from(s1, events@, 0) == spec_resolve_from(self.bodies@, events@, k as int),
                self.arena_half_width == old(self).arena_half_width,
                self.arena_half_height == old(self).arena_half_height,
            decreases m_events - k,
        {
            let ev = events[k];
            let applicable = ev.first < n && ev.second < n && ev.first != ev.second;
            if applicable {
                let ea = self.bodies[ev.first];
                let eb = self.bodies[ev.second];
                if ea.live && eb.live {
                    if let (Some(ma), Some(mb)) = (ea.motion, eb.motion) {
                        if (ev.contact.sign == 1 || ev.contact.sign == -1) && ev.contact.penetration
                            >= 0 && ev.contact.penetration <= 4000000000 {
                            let rr = resolve_contact(&ea.body, &eb.body, &ma, &mb, &ev.contact);
                            self.bodies.set(
                                ev.first,
                                BodyEntry { body: ea.body, live: true, motion: Some(rr.0) },
                            );
                            self.bodies.set(
                                ev.second,
                                BodyEntry { body: eb.body, live: true, motion: Some(rr.1) },
                            );
                        }
                    }
                }
            }
            k = k + 1;
        }
        events
    }
}

} // verus!
