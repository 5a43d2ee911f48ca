use arena_physics::body::Motion;
use arena_physics::control::{move_player, Player};
use arena_physics::damping::{damp_value, decay_factor};
use arena_physics::game::{
    bounce_audio_cue, Cooldown, EnemyBase, PlayerBase, Score, StepAccumulator, TimeScale,
};
use arena_physics::units::{div_trunc_i64, flip, isqrt, isqrt_up, mul_div_i64};
use arena_physics::utility::{lerp_value, merge_result};
use arena_physics::vec2::Vec2;

#[test]
fn damping_converges_without_overshoot() {
    // rate 20/s at a 60 Hz frame
    let decay = decay_factor(20_000, 16_666);
    assert!(0 < decay && decay < 1_000);
    let target = 1_000_000i64;
    let mut v = 0i64;
    let mut iterations = 0;
    while v != target {
        let next = damp_value(v, target, decay);
        // monotone approach, never past the target
        assert!(next > v || v == target);
        assert!(next <= target);
        v = next;
        iterations += 1;
        assert!(iterations < 200, "damping must converge quickly");
    }
    assert_eq!(v, target);
}

#[test]
fn damping_first_step_keeps_the_decay_fraction() {
    let decay = decay_factor(20_000, 16_666);
    // x = 333, denominator 1000 + 333 + 55 = 1388, decay = 720
    assert_eq!(decay, 720);
    assert_eq!(damp_value(0, 1_000_000, decay), 280_000);
    // zero elapsed time changes nothing
    assert_eq!(decay_factor(20_000, 0), 1_000);
    assert_eq!(damp_value(123, 456, 1_000), 123);
}

#[test]
fn player_movement_follows_input_and_cap() {
    let player = Player::new(2_000_000, 500, 1_000_000, 48_000, 1_000_000, -200_000);
    let mut m = Motion::new(Vec2::zero(), Vec2::zero(), Vec2::zero());
    // two units of input over one 60 Hz frame at sensitivity one half
    move_player(&mut m, &player, Vec2::new(2_000, 0), Vec2::zero(), 16_666);
    // input asks 60002; one very stiff damp step comes within 6 parts in 1000
    assert_eq!(m.velocity, Vec2::new(59_642, 0));
    assert_eq!(m.position, Vec2::zero());
    // a huge input is capped at the paddle's top speed
    let mut fast = Motion::new(Vec2::zero(), Vec2::zero(), Vec2::zero());
    move_player(
        &mut fast,
        &player,
        Vec2::new(900_000_000, 0),
        Vec2::zero(),
        16_666,
    );
    let v = fast.velocity;
    assert!(v.x * v.x + v.y * v.y <= 2_000_000i64 * 2_000_000);
    assert!(v.x > 1_900_000);
}

#[test]
fn enemy_base_takes_momentum_damage_and_falls_at_zero() {
    let mut base = EnemyBase::new(40_000_000);
    // momentum 3000 capped at max damage 2000
    let win = base.apply_hit(1_000, 3_000_000, 2_000_000);
    assert!(!win);
    assert_eq!(base.hp, 38_000_000);
    // a nearly dead base takes only what is left, and falls
    let mut weak = EnemyBase::new(1_500_000);
    let win = weak.apply_hit(1_000, 3_000_000, 2_000_000);
    assert!(win);
    assert_eq!(weak.hp, 0);
}

#[test]
fn player_base_spends_balls_then_loses() {
    let mut base = PlayerBase::new(2);
    assert!(!base.register_miss());
    assert!(!base.register_miss());
    assert_eq!(base.ball_count, 0);
    assert!(base.register_miss());
    assert_eq!(base.ball_count, 0);
}

#[test]
fn score_counts_hits_and_misses() {
    let mut score = Score::new(42);
    score.record_hit();
    score.record_hit();
    score.record_miss();
    assert_eq!((score.timestamp, score.hits, score.miss), (42, 2, 1));
}

#[test]
fn bounce_cue_scales_with_speed_and_pans_with_location() {
    // silent below the threshold
    assert!(bounce_audio_cue(400_000, 500_000, 2_500_000, 0, 375_000).is_none());
    let cue = bounce_audio_cue(1_500_000, 500_000, 2_500_000, 0, 375_000).unwrap();
    assert_eq!(cue.intensity, 500);
    assert_eq!(cue.panning, 500);
    // at the right edge the pan sits fully right, at the left fully left
    let edge = bounce_audio_cue(2_500_000, 500_000, 2_500_000, 375_000, 375_000).unwrap();
    assert_eq!(edge.intensity, 1_000);
    assert_eq!(edge.panning, 1_000);
    let left = bounce_audio_cue(2_500_000, 500_000, 2_500_000, -187_500, 375_000).unwrap();
    assert_eq!(left.panning, 250);
}

#[test]
fn cooldown_debounces_pairs_symmetrically() {
    let mut table = Cooldown::new(100_000);
    assert!(table.should_fire(1, 2, 0));
    // same pair, either order, too soon
    assert!(!table.should_fire(1, 2, 50_000));
    assert!(!table.should_fire(2, 1, 99_999));
    // a different pair is independent
    assert!(table.should_fire(1, 3, 50_000));
    // after the interval the pair fires again
    assert!(table.should_fire(2, 1, 100_000));
}

#[test]
fn time_scale_damps_and_resets() {
    let mut ts = TimeScale::default();
    assert_eq!(ts.0, 1_000);
    ts.damp_toward(200, 100_000, 16_666);
    assert!(ts.0 < 1_000 && ts.0 >= 200);
    let slowed = ts.0;
    ts.damp_toward(200, 100_000, 16_666);
    assert!(ts.0 <= slowed);
    ts.reset();
    assert_eq!(ts.0, 1_000);
}

#[test]
fn accumulator_runs_whole_steps_and_carries_the_remainder() {
    // a 180 Hz physics step driven by 60 Hz frames
    let mut acc = StepAccumulator::new(5_555);
    assert_eq!(acc.advance(16_666), 3);
    assert_eq!(acc.remainder, 1);
    assert_eq!(acc.advance(16_666), 3);
    assert_eq!(acc.remainder, 2);
    // a long stall is clamped to the frame limit, never panics
    let steps = acc.advance(i64::MAX);
    assert_eq!(steps, (1_000_000_000 + 2) / 5_555);
    // a zero frame runs nothing
    assert_eq!(acc.advance(0), 0);
}

#[test]
fn lerp_interpolates_by_thousandths() {
    assert_eq!(lerp_value(0, 100, 900), 100);
    assert_eq!(lerp_value(1_000, 100, 900), 900);
    assert_eq!(lerp_value(500, 0, 1_000), 500);
    assert_eq!(lerp_value(250, -1_000, 1_000), -500);
}

#[test]
fn merge_result_pairs_successes_and_keeps_the_first_error() {
    let ok: Result<i32, &str> = Ok(1);
    let ok2: Result<i32, &str> = Ok(2);
    let e1: Result<i32, &str> = Err("first");
    let e2: Result<i32, &str> = Err("second");
    assert_eq!(merge_result(ok, ok2), Ok((1, 2)));
    assert_eq!(merge_result(ok, e2), Err("second"));
    assert_eq!(merge_result(e1, ok2), Err("first"));
    assert_eq!(merge_result(e1, e2), Err("first"));
}

#[test]
fn integer_square_roots_are_exact() {
    assert_eq!(isqrt(0), 0);
    assert_eq!(isqrt(24), 4);
    assert_eq!(isqrt(25), 5);
    assert_eq!(isqrt(26), 5);
    assert_eq!(isqrt_up(25), 5);
    assert_eq!(isqrt_up(26), 6);
    assert_eq!(isqrt(10_000_000_000_000_000_000), 3_162_277_660);
}

#[test]
fn fixed_point_helpers_round_toward_zero() {
    assert_eq!(div_trunc_i64(-7, 2), -3);
    assert_eq!(div_trunc_i64(7, 2), 3);
    assert_eq!(mul_div_i64(-7, 3, 2), -10);
    assert_eq!(mul_div_i64(7, 3, 2), 10);
    assert_eq!(flip(5, -1), -5);
    assert_eq!(flip(5, 1), 5);
}
