use p2pong::geometry::{collide, Aabb, Collision};
use p2pong::pong::{
    ball_collision_system, increase_frame_system, input, move_ball_system, move_paddle_system,
    run, scoreboard_system, setup_system, spawn_ball_system, start_match, step, ActiveBalls, Ball,
    FrameCount, GameState, InputFrame, LastWinner, Scoreboard, Side, WinSize, BALL_AXIS_SPEED,
    INPUT_DOWN, INPUT_UP, PADDLE_SPEED,
};

fn field() -> WinSize {
    WinSize { w: 1_200_000, h: 720_000 }
}

fn idle() -> InputFrame {
    InputFrame { p0: 0, p1: 0 }
}

#[test]
fn serve_reaches_left_goal_and_respawns() {
    let mut s = start_match(field());
    assert_eq!(s.last_winner, LastWinner(Side::Left));
    let b = s.ball.unwrap();
    assert!(b.vx < 0);
    let mut ticks = 0;
    while s.scoreboard.right == 0 {
        step(&mut s, idle());
        ticks += 1;
        assert!(ticks < 1000);
    }
    assert_eq!(s.scoreboard, Scoreboard { left: 0, right: 1 });
    assert_eq!(s.last_winner, LastWinner(Side::Right));
    assert_eq!(s.active_balls, ActiveBalls(0));
    assert!(s.ball.is_none());
    step(&mut s, idle());
    assert_eq!(s.active_balls, ActiveBalls(1));
    let b = s.ball.unwrap();
    assert_eq!((b.vx, b.vy), (BALL_AXIS_SPEED, BALL_AXIS_SPEED));
    assert_eq!((b.x, b.y), (BALL_AXIS_SPEED, BALL_AXIS_SPEED));
}

#[test]
fn goal_tick_exact() {
    let mut s = start_match(field());
    let mut ticks = 0;
    while s.scoreboard.right == 0 {
        step(&mut s, idle());
        ticks += 1;
    }
    // 140 moves bring the ball's left edge past the goal's inner edge; the
    // goal is scored at the start of the next tick.
    assert_eq!(ticks, 141);
    assert_eq!(s.frame_count, FrameCount { frame: 141 });
}

#[test]
fn bounce_off_bottom_wall() {
    let mut s = start_match(field());
    for _ in 0..83 {
        step(&mut s, idle());
    }
    assert_eq!(s.ball.unwrap().vy, -BALL_AXIS_SPEED);
    step(&mut s, idle());
    let b = s.ball.unwrap();
    assert_eq!(b.vy, BALL_AXIS_SPEED);
    assert_eq!(b.vx, -BALL_AXIS_SPEED);
    // collision is resolved before the move, so the reflected velocity
    // already applies to this tick's move
    assert_eq!(b.y, -83 * BALL_AXIS_SPEED + BALL_AXIS_SPEED);
}

#[test]
fn determinism_two_copies() {
    let frames: Vec<InputFrame> = (0..500u32)
        .map(|i| InputFrame { p0: (i % 4) as u8, p1: ((i / 3) % 4) as u8 })
        .collect();
    let mut a = start_match(field());
    let mut b = a;
    run(&mut a, &frames);
    run(&mut b, &frames);
    assert_eq!(a, b);
    assert_eq!(a.frame_count.frame, 500);
}

#[test]
fn run_equals_steps() {
    let frames = vec![InputFrame { p0: INPUT_UP, p1: INPUT_DOWN }; 10];
    let mut a = start_match(field());
    let mut b = a;
    run(&mut a, &frames);
    for f in frames.iter() {
        step(&mut b, *f);
    }
    assert_eq!(a, b);
    assert_eq!(a.left_paddle.y, 10 * PADDLE_SPEED);
    assert_eq!(a.right_paddle.y, -10 * PADDLE_SPEED);
}

#[test]
fn invariant_and_scores_over_long_match() {
    let mut s = start_match(field());
    let mut prev = s.scoreboard;
    for i in 0..5000u32 {
        let f = InputFrame { p0: (i % 7 % 4) as u8, p1: (i % 5 % 4) as u8 };
        step(&mut s, f);
        assert!(s.is_valid());
        assert!(s.active_balls.0 <= 1);
        assert!(s.scoreboard.left >= prev.left && s.scoreboard.right >= prev.right);
        let grew = (s.scoreboard.left - prev.left) + (s.scoreboard.right - prev.right);
        assert!(grew <= 1);
        prev = s.scoreboard;
    }
    assert!(s.scoreboard.left + s.scoreboard.right > 0);
}

#[test]
fn paddle_clamped_at_bound() {
    let mut s = start_match(field());
    let bound = 720_000 / 2 - 35_000 - 5_000;
    for _ in 0..200 {
        step(&mut s, InputFrame { p0: INPUT_UP, p1: INPUT_DOWN });
        assert!(s.left_paddle.y.abs() <= bound && s.right_paddle.y.abs() <= bound);
    }
    assert_eq!(s.left_paddle.y, bound);
    assert_eq!(s.right_paddle.y, -bound);
    for i in 0..200 {
        let f = if i % 2 == 0 { INPUT_UP } else { INPUT_DOWN };
        step(&mut s, InputFrame { p0: f, p1: f });
        assert!(s.left_paddle.y.abs() <= bound && s.right_paddle.y.abs() <= bound);
    }
}

#[test]
fn paddle_direction_bits() {
    let mut s = setup_system(field());
    move_paddle_system(&mut s, InputFrame { p0: INPUT_UP | INPUT_DOWN, p1: 0 });
    assert_eq!((s.left_paddle.y, s.right_paddle.y), (0, 0));
    move_paddle_system(&mut s, InputFrame { p0: INPUT_UP | 4, p1: INPUT_DOWN | 8 });
    assert_eq!((s.left_paddle.y, s.right_paddle.y), (PADDLE_SPEED, -PADDLE_SPEED));
}

#[test]
fn input_payload() {
    assert_eq!(input(false, false), vec![0u8]);
    assert_eq!(input(true, false), vec![INPUT_UP]);
    assert_eq!(input(false, true), vec![INPUT_DOWN]);
    assert_eq!(input(true, true), vec![3u8]);
}

#[test]
fn setup_and_spawn() {
    let mut s = setup_system(field());
    assert!(s.ball.is_none());
    assert_eq!(s.active_balls, ActiveBalls(0));
    assert_eq!(s.frame_count, FrameCount { frame: 0 });
    assert_eq!(scoreboard_system(&s), Scoreboard { left: 0, right: 0 });
    spawn_ball_system(&mut s);
    assert_eq!(
        s.ball,
        Some(Ball { x: 0, y: 0, vx: -BALL_AXIS_SPEED, vy: -BALL_AXIS_SPEED })
    );
    let before = s;
    spawn_ball_system(&mut s);
    assert_eq!(s, before);
}

#[test]
fn right_goal_scores_left() {
    let mut s = setup_system(field());
    s.ball = Some(Ball { x: 592_000, y: 0, vx: BALL_AXIS_SPEED, vy: BALL_AXIS_SPEED });
    s.active_balls = ActiveBalls(1);
    ball_collision_system(&mut s);
    assert_eq!(s.scoreboard, Scoreboard { left: 1, right: 0 });
    assert_eq!(s.last_winner, LastWinner(Side::Left));
    assert!(s.ball.is_none());
}

#[test]
fn paddle_reflects_ball() {
    let mut s = setup_system(field());
    // left edge of the right paddle is at 472_500
    s.ball = Some(Ball { x: 470_000, y: 0, vx: BALL_AXIS_SPEED, vy: BALL_AXIS_SPEED });
    s.active_balls = ActiveBalls(1);
    ball_collision_system(&mut s);
    let b = s.ball.unwrap();
    assert_eq!((b.vx, b.vy), (-BALL_AXIS_SPEED, BALL_AXIS_SPEED));
    move_ball_system(&mut s);
    assert_eq!(s.ball.unwrap().x, 470_000 - BALL_AXIS_SPEED);
}

#[test]
fn no_reflect_when_moving_away() {
    let mut s = setup_system(field());
    s.ball = Some(Ball { x: 470_000, y: 0, vx: -BALL_AXIS_SPEED, vy: BALL_AXIS_SPEED });
    s.active_balls = ActiveBalls(1);
    let before = s;
    ball_collision_system(&mut s);
    assert_eq!(s, before);
}

#[test]
fn frame_counter_increments() {
    let mut f = FrameCount { frame: 41 };
    increase_frame_system(&mut f);
    assert_eq!(f, FrameCount { frame: 42 });
}

#[test]
fn collide_sides() {
    let wall = Aabb { cx: 0, cy: 0, hw: 100, hh: 100 };
    let b = |cx, cy| Aabb { cx, cy, hw: 10, hh: 10 };
    assert_eq!(collide(b(-105, 0), wall), Some(Collision::Left));
    assert_eq!(collide(b(105, 0), wall), Some(Collision::Right));
    assert_eq!(collide(b(0, 105), wall), Some(Collision::Top));
    assert_eq!(collide(b(0, -105), wall), Some(Collision::Bottom));
    assert_eq!(collide(b(0, 0), wall), None);
    assert_eq!(collide(b(200, 0), wall), None);
    assert_eq!(collide(b(-110, 0), wall), None);
    // corner: shallower penetration decides
    assert_eq!(collide(b(-108, 105), wall), Some(Collision::Left));
    assert_eq!(collide(b(-105, 108), wall), Some(Collision::Top));
    // tie goes to the vertical edge
    assert_eq!(collide(b(-105, 105), wall), Some(Collision::Left));
}

#[test]
fn invalid_state_detected() {
    let mut s = start_match(field());
    assert!(s.is_valid());
    s.active_balls = ActiveBalls(2);
    assert!(!s.is_valid());
    let mut t = start_match(field());
    t.left_paddle.y = 400_000;
    assert!(!t.is_valid());
    let mut u = start_match(field());
    u.scoreboard.left = 1;
    assert!(!u.is_valid());
    let v = GameState { win_size: WinSize { w: 1000, h: 1000 }, ..start_match(field()) };
    assert!(!v.is_valid());
}
