use arena_physics::body::{Motion, RigidBody};
use arena_physics::collide::{detect_contact, Axis, Contact};
use arena_physics::integrate::integrate_motion;
use arena_physics::resolve::resolve_contact;
use arena_physics::vec2::Vec2;
use arena_physics::world::World;

fn ball_body(mass: i64, restitution: i64, friction: i64) -> RigidBody {
    RigidBody::new(10_000, 10_000, mass, restitution, friction, 2, 4, 10_000_000, 0)
}

#[test]
fn head_on_collision_matches_restitution_formula() {
    // masses 1 and 3, restitution 0.9, approaching at 100 and -50
    let a = ball_body(1_000, 900, 0);
    let b = ball_body(3_000, 900, 0);
    let ma = Motion::new(Vec2::new(-5_000, 0), Vec2::new(100_000, 0), Vec2::zero());
    let mb = Motion::new(Vec2::new(5_000, 0), Vec2::new(-50_000, 0), Vec2::zero());
    let contact = Contact {
        location: Vec2::zero(),
        axis: Axis::X,
        sign: 1,
        penetration: 0,
    };
    let (ra, rb) = resolve_contact(&a, &b, &ma, &mb, &contact);
    // 1-D elastic-with-restitution outcome: -113.75 and 21.25
    assert_eq!(ra.velocity.x, -113_750);
    assert_eq!(rb.velocity.x, 21_250);
    // momentum is conserved
    assert_eq!(
        1_000 * ra.velocity.x + 3_000 * rb.velocity.x,
        1_000 * 100_000 + 3_000 * -50_000
    );
    // separating at restitution times the closing speed
    assert_eq!(rb.velocity.x - ra.velocity.x, 135_000);
    // untouched components and positions stay put (no penetration)
    assert_eq!(ra.velocity.y, 0);
    assert_eq!(rb.velocity.y, 0);
    assert_eq!(ra.position, ma.position);
    assert_eq!(rb.position, mb.position);
}

#[test]
fn collision_separates_bodies() {
    let a = ball_body(2_000, 300, 0);
    let b = ball_body(500, 300, 0);
    let ma = Motion::new(Vec2::new(0, 0), Vec2::new(50_000, 0), Vec2::zero());
    let mb = Motion::new(Vec2::new(15_000, 0), Vec2::new(-100_000, 0), Vec2::zero());
    let contact = Contact {
        location: Vec2::zero(),
        axis: Axis::X,
        sign: 1,
        penetration: 5_000,
    };
    let (ra, rb) = resolve_contact(&a, &b, &ma, &mb, &contact);
    assert!(rb.velocity.x - ra.velocity.x >= 0);
}

#[test]
fn immovable_body_is_unchanged_by_resolution() {
    let wall = RigidBody::new(375_000, 16_000, 0, 1_000, 500, 4, 2, 0, 0);
    let ball = ball_body(1_000, 1_000, 500);
    // ball above the wall, falling onto it while sliding sideways
    let mw = Motion::new(Vec2::new(0, -516_000), Vec2::zero(), Vec2::zero());
    let mb = Motion::new(
        Vec2::new(0, -503_000),
        Vec2::new(200_000, -500_000),
        Vec2::zero(),
    );
    // the normal points from the ball down toward the wall
    let contact = Contact {
        location: Vec2::new(0, -500_000),
        axis: Axis::Y,
        sign: -1,
        penetration: 13_000,
    };
    let (rball, rwall) = resolve_contact(&ball, &wall, &mb, &mw, &contact);
    // the immovable wall keeps its whole state
    assert_eq!(rwall.velocity, mw.velocity);
    assert_eq!(rwall.position, mw.position);
    // fully elastic bounce flips the ball's fall exactly
    assert_eq!(rball.velocity.y, 500_000);
    // friction eats the slide (the clamp is far above the ideal impulse)
    assert_eq!(rball.velocity.x, 0);
}

#[test]
fn two_immovable_bodies_are_a_no_op() {
    let wall = RigidBody::new(100_000, 100_000, 0, 900, 0, 4, 4, 0, 0);
    let ma = Motion::new(Vec2::new(0, 0), Vec2::zero(), Vec2::zero());
    let mb = Motion::new(Vec2::new(50_000, 0), Vec2::zero(), Vec2::zero());
    let contact = Contact {
        location: Vec2::zero(),
        axis: Axis::X,
        sign: 1,
        penetration: 150_000,
    };
    let (ra, rb) = resolve_contact(&wall, &wall, &ma, &mb, &contact);
    assert_eq!(ra.position, ma.position);
    assert_eq!(rb.position, mb.position);
    assert_eq!(ra.velocity, ma.velocity);
    assert_eq!(rb.velocity, mb.velocity);
}

#[test]
fn detection_picks_least_penetration_axis_and_midpoint() {
    let a = RigidBody::new(50_000, 50_000, 1_000, 900, 0, 1, 1, 0, 0);
    let b = RigidBody::new(50_000, 50_000, 1_000, 900, 0, 1, 1, 0, 0);
    let pa = Vec2::new(0, 0);
    let pb = Vec2::new(80_000, 10_000);
    let c = detect_contact(&a, pa, &b, pb).expect("boxes overlap");
    assert_eq!(c.axis, Axis::X);
    assert_eq!(c.sign, 1);
    assert_eq!(c.penetration, 20_000);
    assert_eq!(c.location, Vec2::new(40_000, 5_000));
}

#[test]
fn detection_respects_masks_and_separation() {
    let a = RigidBody::new(50_000, 50_000, 1_000, 900, 0, 1, 2, 0, 0);
    let b = RigidBody::new(50_000, 50_000, 1_000, 900, 0, 1, 2, 0, 0);
    // overlapping boxes, but the masks accept only layer 2
    assert!(detect_contact(&a, Vec2::zero(), &b, Vec2::new(10_000, 0)).is_none());
    let c = RigidBody::new(50_000, 50_000, 1_000, 900, 0, 1, 1, 0, 0);
    let d = RigidBody::new(50_000, 50_000, 1_000, 900, 0, 1, 1, 0, 0);
    // matching masks, but boxes only touching, not overlapping
    assert!(detect_contact(&c, Vec2::zero(), &d, Vec2::new(100_000, 0)).is_none());
    // and just overlapping
    assert!(detect_contact(&c, Vec2::zero(), &d, Vec2::new(99_999, 0)).is_some());
}

#[test]
fn integration_moves_by_velocity_times_dt() {
    let body = RigidBody::new(10_000, 10_000, 1_000, 900, 0, 1, 1, 10_000_000, 0);
    let m = Motion::new(
        Vec2::new(1_000, 2_000),
        Vec2::new(100_000, -200_000),
        Vec2::zero(),
    );
    let r = integrate_motion(&body, &m, 16_666);
    // 100000 * 16666 / 1000000 = 1666, truncated toward zero both ways
    assert_eq!(r.position.x, 1_000 + 1_666);
    assert_eq!(r.position.y, 2_000 - 3_333);
    // no damping configured, speed under the cap: velocity unchanged
    assert_eq!(r.velocity, m.velocity);
}

#[test]
fn registration_clamps_degenerate_attributes() {
    // restitution 2.0 and negative mass/friction are clamped, not rejected
    let b = RigidBody::new(-5, 2_000_000_000, -5, 2_000, -1, 1, 2, 99_000_000, -3);
    assert_eq!(b.half_width, 0);
    assert_eq!(b.half_height, 1_000_000_000);
    assert_eq!(b.mass, 0);
    assert_eq!(b.restitution, 1_000);
    assert_eq!(b.friction, 0);
    assert_eq!(b.max_speed, 10_000_000);
    assert_eq!(b.damp_rate, 0);
}

#[test]
fn step_bounces_ball_off_boundary_and_reports_event() {
    let mut world = World::new(375_000, 500_000);
    let wall = world.register_body(RigidBody::new(375_000, 16_000, 0, 1_000, 0, 4, 2, 0, 0));
    let ball = world.register_body(ball_body(1_000, 1_000, 0));
    world.attach_motion(wall, Vec2::new(0, -516_000), Vec2::zero());
    world.attach_motion(ball, Vec2::new(0, -495_000), Vec2::new(0, -800_000));
    let events = world.step(10_000);
    assert_eq!(events.len(), 1);
    let ev = &events[0];
    assert_eq!(ev.first, wall);
    assert_eq!(ev.second, ball);
    assert_eq!(ev.contact.axis, Axis::Y);
    assert_eq!(ev.contact.penetration, 13_000);
    // the wall never moves
    let wm = world.get_motion(wall).unwrap();
    assert_eq!(wm.position, Vec2::new(0, -516_000));
    assert_eq!(wm.velocity, Vec2::zero());
    // fully elastic bounce plus positional correction of half the depth
    let bm = world.get_motion(ball).unwrap();
    assert_eq!(bm.velocity, Vec2::new(0, 800_000));
    assert_eq!(bm.position, Vec2::new(0, -496_500));
}

#[test]
fn step_skips_inactive_and_unregistered_bodies() {
    let mut world = World::new(375_000, 500_000);
    let pair = RigidBody::new(10_000, 10_000, 1_000, 900, 0, 2, 2, 10_000_000, 0);
    let a = world.register_body(pair);
    let b = world.register_body(pair);
    world.attach_motion(a, Vec2::zero(), Vec2::zero());
    world.attach_motion(b, Vec2::new(5_000, 0), Vec2::zero());
    // overlapping and active: one event
    assert_eq!(world.step(1_000).len(), 1);
    // detached: no event
    world.detach_motion(b);
    assert_eq!(world.step(1_000).len(), 0);
    // unregistered: attach is ignored, still no event
    world.unregister_body(b);
    world.attach_motion(b, Vec2::new(5_000, 0), Vec2::zero());
    assert!(world.get_motion(b).is_none());
    assert_eq!(world.step(1_000).len(), 0);
}

#[test]
fn step_caps_speed_at_the_body_maximum() {
    let mut world = World::new(375_000, 500_000);
    let id = world.register_body(RigidBody::new(
        10_000, 10_000, 1_000, 900, 0, 2, 0, 2_500_000, 0,
    ));
    world.attach_motion(id, Vec2::zero(), Vec2::new(3_000_000, 4_000_000));
    world.step(1_000);
    let m = world.get_motion(id).unwrap();
    // a 3-4-5 triangle scales exactly onto the cap
    assert_eq!(m.velocity, Vec2::new(1_500_000, 2_000_000));
    let cap = 2_500_000i64;
    assert!(m.velocity.x * m.velocity.x + m.velocity.y * m.velocity.y <= cap * cap);
}

#[test]
fn empty_world_and_zero_dt_are_quiet() {
    let mut world = World::new(375_000, 500_000);
    assert_eq!(world.step(5_555).len(), 0);
    let id = world.register_body(ball_body(1_000, 900, 0));
    world.attach_motion(id, Vec2::new(1_000, 2_000), Vec2::new(300_000, 0));
    let before = world.get_motion(id);
    // a zero timestep moves nothing and raises nothing
    assert_eq!(world.step(0).len(), 0);
    assert_eq!(world.get_motion(id), before);
}

#[test]
fn escaped_bodies_are_reported_out_of_bounds() {
    let mut world = World::new(375_000, 500_000);
    let id = world.register_body(ball_body(1_000, 900, 0));
    assert!(world.out_of_bounds(id, 64_000).is_none());
    world.attach_motion(id, Vec2::new(0, 0), Vec2::zero());
    assert_eq!(world.out_of_bounds(id, 64_000), Some(false));
    world.attach_motion(id, Vec2::new(0, -600_000), Vec2::zero());
    assert_eq!(world.out_of_bounds(id, 64_000), Some(true));
    assert_eq!(world.out_of_bounds(id, 200_000), Some(false));
    assert!(world.out_of_bounds(42, 64_000).is_none());
}

fn demo_world() -> (World, usize, usize, usize) {
    let mut world = World::new(375_000, 500_000);
    let wall = world.register_body(RigidBody::new(375_000, 16_000, 0, 1_000, 0, 4, 2, 0, 0));
    let paddle = world.register_body(RigidBody::new(
        48_000, 8_000, 3_000, 900, 500, 1, 2, 2_000_000, 20_000,
    ));
    let ball = world.register_body(ball_body(1_000, 1_000, 500));
    world.attach_motion(wall, Vec2::new(0, -516_000), Vec2::zero());
    world.attach_motion(paddle, Vec2::new(0, -160_000), Vec2::zero());
    world.attach_motion(ball, Vec2::new(10_000, 0), Vec2::new(120_000, -700_000));
    world.set_control(paddle, Vec2::new(300_000, 0));
    (world, wall, paddle, ball)
}

#[test]
fn identical_runs_are_bit_identical() {
    let (mut w1, _, _, ball) = demo_world();
    let (mut w2, _, _, _) = demo_world();
    let dts = [5_555i64, 16_666, 8_333, 5_555, 5_555, 33_333, 5_555, 10_000];
    for _round in 0..25 {
        for &dt in dts.iter() {
            let e1 = w1.step(dt);
            let e2 = w2.step(dt);
            assert_eq!(e1, e2);
        }
    }
    for id in 0..3 {
        assert_eq!(w1.get_motion(id), w2.get_motion(id));
    }
    // and the run did something
    let m = w1.get_motion(ball).unwrap();
    assert!(m.position != Vec2::new(10_000, 0));
}
