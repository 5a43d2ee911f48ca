use arena_physics::body::RigidBody;
use arena_physics::control::{player_assistance, select_intercept, Player};
use arena_physics::predict::TrajPoint;
use arena_physics::vec2::Vec2;
use arena_physics::world::World;

fn free_ball_world() -> (World, usize) {
    let mut world = World::new(375_000, 500_000);
    let ball = world.register_body(RigidBody::new(0, 0, 1_000, 1_000, 0, 2, 4, 10_000_000, 0));
    world.attach_motion(ball, Vec2::new(0, 0), Vec2::new(0, -800_000));
    (world, ball)
}

#[test]
fn forecast_reports_floor_reflection_near_expected_time() {
    // ball at (0,0) falling at 800 in a 1000-high arena, horizon 1 s at
    // substep 0.01 s: the bounce must show near y = -500 at t near 0.625 s
    let (world, ball) = free_ball_world();
    let traj = world.predict_trajectory(ball, 0, 10_000, 100).unwrap();
    assert_eq!(traj.start_time, 0);
    assert_eq!(traj.points.len(), 100);
    let bounce = traj
        .points
        .iter()
        .find(|p| p.velocity.y > 0)
        .expect("the forecast must contain the reflection");
    assert_eq!(bounce.position.y, -500_000);
    assert!((bounce.time - 625_000).abs() <= 10_000, "bounced at {}", bounce.time);
    assert_eq!(bounce.velocity.y, 800_000);
}

#[test]
fn forecast_never_leaves_the_arena() {
    let (world, ball) = free_ball_world();
    let traj = world.predict_trajectory(ball, 0, 10_000, 400).unwrap();
    for p in traj.points.iter() {
        assert!(p.position.x.abs() <= 375_000);
        assert!(p.position.y.abs() <= 500_000);
    }
}

#[test]
fn forecast_is_restartable() {
    // re-simulating from the same live state gives the same samples
    let (world, ball) = free_ball_world();
    let t1 = world.predict_trajectory(ball, 7, 10_000, 50).unwrap();
    let t2 = world.predict_trajectory(ball, 7, 10_000, 50).unwrap();
    assert_eq!(t1.points, t2.points);
}

#[test]
fn stale_forecasts_are_rejected() {
    let (world, ball) = free_ball_world();
    let traj = world.predict_trajectory(ball, 500_000, 10_000, 10).unwrap();
    assert!(!traj.is_stale(600_000, 200_000));
    assert!(traj.is_stale(701_000, 200_000));
    // a clock that ran backwards is never trusted
    assert!(traj.is_stale(400_000, 200_000));
}

#[test]
fn store_hands_back_registered_attributes() {
    let (mut world, ball) = free_ball_world();
    let body = world.get_body(ball).expect("registered body");
    assert_eq!(body.mass, 1_000);
    assert_eq!(body.restitution, 1_000);
    assert!(world.get_body(17).is_none());
    world.unregister_body(ball);
    assert!(world.get_body(ball).is_none());
}

#[test]
fn forecast_needs_an_active_body() {
    let (mut world, ball) = free_ball_world();
    assert!(world.predict_trajectory(99, 0, 10_000, 10).is_none());
    world.detach_motion(ball);
    assert!(world.predict_trajectory(ball, 0, 10_000, 10).is_none());
}

#[test]
fn intercept_choice_maximizes_space_time_cost() {
    let points = vec![
        // reachable but early
        TrajPoint {
            time: 100_000,
            position: Vec2::new(0, -100_000),
            velocity: Vec2::new(0, -500_000),
        },
        // later and still reachable: the better intercept
        TrajPoint {
            time: 400_000,
            position: Vec2::new(50_000, -300_000),
            velocity: Vec2::new(0, -500_000),
        },
        // above the midline: not a candidate at all
        TrajPoint {
            time: 500_000,
            position: Vec2::new(0, 100_000),
            velocity: Vec2::new(0, -500_000),
        },
        // rising: not a candidate
        TrajPoint {
            time: 450_000,
            position: Vec2::new(0, -200_000),
            velocity: Vec2::new(0, 500_000),
        },
    ];
    let chosen = select_intercept(&points, 0, Vec2::new(0, -450_000), 1_000_000, 500_000)
        .expect("two candidates exist");
    assert_eq!(chosen, points[1]);
}

#[test]
fn intercept_ignores_points_in_the_floor_strip() {
    let points = vec![TrajPoint {
        time: 100_000,
        position: Vec2::new(0, -490_000),
        velocity: Vec2::new(0, -500_000),
    }];
    assert!(select_intercept(&points, 0, Vec2::zero(), 1_000_000, 500_000).is_none());
}

#[test]
fn assistance_engages_only_on_fast_falling_distant_balls() {
    let (world, ball) = free_ball_world();
    let traj = world.predict_trajectory(ball, 0, 10_000, 100).unwrap();
    let player = Player::new(2_000_000, 500, 20_000, 48_000, 1_000_000, -200_000);
    let ball_motion = world.get_motion(ball).unwrap();
    // ball is far to the side and falling fast: assistance engages
    let paddle_at = Vec2::new(-200_000, -450_000);
    let (assist, scale) = player_assistance(paddle_at, &player, &ball_motion, &traj, 0, 500_000);
    assert!(assist.x != 0 || assist.y != 0, "assistance should engage");
    assert!(assist.x.abs() <= player.assist_speed);
    assert!(assist.y.abs() <= player.assist_speed);
    // the ball is above the paddle, so play slows down
    assert!(scale < 1_000 && scale >= 200);
    // ball straight above the paddle within reach: no assistance
    let near = Vec2::new(0, -450_000);
    let (none_assist, _) = player_assistance(near, &player, &ball_motion, &traj, 0, 500_000);
    assert_eq!(none_assist, Vec2::new(0, 0));
}
