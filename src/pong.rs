use vstd::prelude::*;
use crate::geometry::{Aabb, Collision, abs, collide, collide_spec};

verus! {

/// Sub-pixel units per pixel.
pub const UNIT: i64 = 1000;
/// Vertical distance a paddle moves in one tick.
pub const PADDLE_SPEED: i64 = 4 * UNIT;
/// Per-axis ball speed: a ball speed of 6 pixels per tick along a diagonal,
/// to the nearest sub-pixel.
pub const BALL_AXIS_SPEED: i64 = 4243;
/// Thickness of the top and bottom walls.
pub const HORIZONTAL_WALL_WIDTH: i64 = 10 * UNIT;
/// Thickness of the left and right goals.
pub const VERTICAL_WALL_WIDTH: i64 = 10 * UNIT;
pub const PADDLE_WIDTH: i64 = 15 * UNIT;
pub const PADDLE_HEIGHT: i64 = 70 * UNIT;
pub const BALL_SIZE: i64 = 10 * UNIT;
/// Input bit: move up.
pub const INPUT_UP: u8 = 1;
/// Input bit: move down.
pub const INPUT_DOWN: u8 = 2;
pub const NUM_PLAYERS: usize = 2;
/// Largest window extent, in sub-pixels, that the simulation takes.
pub const MAX_WIN_EXTENT: i64 = 1_000_000_000_000;
/// Smallest window extent, in sub-pixels, that the simulation takes.
pub const MIN_WIN_EXTENT: i64 = 200 * UNIT;

/// A player's side of the field.
#[derive(Clone, Copy, Debug, PartialEq, Eq, Structural)]
pub enum Side {
    Left,
    Right,
}

/// The sign in x of a serve toward a side.
pub open spec fn side_sign(s: Side) -> int {
    match s {
        Side::Left => -1,
        Side::Right => 1,
    }
}

/// Which side scored the last goal; the next serve goes toward it.
#[derive(Clone, Copy, Debug, PartialEq, Eq, Structural)]
pub struct LastWinner(pub Side);

/// The left side: the last winner at the start of a match, so the first
/// serve goes left.
pub const LEFT_PADDLE: Side = Side::Left;
/// The right side.
pub const RIGHT_PADDLE: Side = Side::Right;

/// A paddle: its owning player handle and its vertical position.
#[derive(Clone, Copy, Debug, PartialEq, Eq, Structural)]
pub struct Paddle {
    pub handle: u32,
    pub y: i64,
}

/// The ball: position and velocity.
#[derive(Clone, Copy, Debug, PartialEq, Eq, Structural)]
pub struct Ball {
    pub x: i64,
    pub y: i64,
    pub vx: i64,
    pub vy: i64,
}

/// What a collider does to the ball.
#[derive(Clone, Copy, Debug, PartialEq, Eq, Structural)]
pub enum Collider {
    Solid,
    LeftGoal,
    RightGoal,
}

/// Number of pipeline applications since the match started.
#[derive(Clone, Copy, Debug, PartialEq, Eq, Structural)]
pub struct FrameCount {
    pub frame: u32,
}

/// Number of balls in play.
#[derive(Clone, Copy, Debug, PartialEq, Eq, Structural)]
pub struct ActiveBalls(pub u32);

/// Goals scored by each side.
#[derive(Clone, Copy, Debug, PartialEq, Eq, Structural)]
pub struct Scoreboard {
    pub left: u32,
    pub right: u32,
}

/// Width and height of the field, in sub-pixels.
#[derive(Clone, Copy, Debug, PartialEq, Eq, Structural)]
pub struct WinSize {
    pub w: i64,
    pub h: i64,
}

impl WinSize {
    /// Extents are even (so halves are exact) and within the supported range.
    pub open spec fn wf(self) -> bool {
        MIN_WIN_EXTENT <= self.w <= MAX_WIN_EXTENT && MIN_WIN_EXTENT <= self.h <= MAX_WIN_EXTENT
            && self.w % 10 == 0 && self.h % 2 == 0
    }

    /// Highest center position of a paddle.
    pub open spec fn bound(self) -> int {
        self.h / 2 - PADDLE_HEIGHT / 2 - HORIZONTAL_WALL_WIDTH / 2
    }

    /// Horizontal distance of each paddle from the center line.
    pub open spec fn paddle_x(self) -> int {
        self.w * 2 / 5
    }
}

/// Input payload of each player for one tick, indexed by handle.
#[derive(Clone, Copy, Debug, PartialEq, Eq, Structural)]
pub struct InputFrame {
    pub p0: u8,
    pub p1: u8,
}

impl InputFrame {
    pub open spec fn of(self, handle: u32) -> u8 {
        if handle == 0 {
            self.p0
        } else {
            self.p1
        }
    }
}

/// The whole simulation state: a value, copied whole into a snapshot.
#[derive(Clone, Copy, Debug, PartialEq, Eq, Structural)]
pub struct GameState {
    pub win_size: WinSize,
    /// Paddle of player handle 0, on the left.
    pub left_paddle: Paddle,
    /// Paddle of player handle 1, on the right.
    pub right_paddle: Paddle,
    pub ball: Option<Ball>,
    pub active_balls: ActiveBalls,
    pub scoreboard: Scoreboard,
    pub last_winner: LastWinner,
    pub frame_count: FrameCount,
}

/// Largest ball coordinate magnitude that the stages take.
pub const BALL_POS_LIMIT: i64 = 100_000_000_000_000;

impl GameState {
    /// The shape that every stage keeps: field, paddles and ball consistent.
    pub open spec fn core_wf(self) -> bool {
        &&& self.win_size.wf()
        &&& self.left_paddle.handle == 0 && self.right_paddle.handle == 1
        &&& abs(self.left_paddle.y as int) <= self.win_size.bound()
        &&& abs(self.right_paddle.y as int) <= self.win_size.bound()
        &&& self.active_balls.0 <= 1
        &&& (self.active_balls.0 == 1 <==> self.ball.is_some())
        &&& match self.ball {
            Some(b) => {
                &&& abs(b.vx as int) == BALL_AXIS_SPEED
                &&& abs(b.vy as int) == BALL_AXIS_SPEED
                &&& abs(b.x as int) <= BALL_POS_LIMIT
                &&& abs(b.y as int) <= BALL_POS_LIMIT
            },
            None => true,
        }
    }

    /// The invariant of every state between ticks.
    pub open spec fn wf(self) -> bool {
        &&& self.core_wf()
        &&& self.scoreboard.left + self.scoreboard.right <= self.frame_count.frame
        &&& match self.ball {
            Some(b) => {
                &&& abs(b.x as int) <= BALL_AXIS_SPEED * self.frame_count.frame
                &&& abs(b.y as int) <= BALL_AXIS_SPEED * self.frame_count.frame
            },
            None => true,
        }
    }
}

/// A new ball at the center, served toward the side of the last winner.
pub open spec fn served_ball(w: LastWinner) -> Ball {
    let v = side_sign(w.0) * BALL_AXIS_SPEED;
    Ball { x: 0, y: 0, vx: v as i64, vy: v as i64 }
}

/// Spawn-ball stage: with no ball in play, serve one.
pub open spec fn spawn_spec(s: GameState) -> GameState {
    if s.active_balls.0 == 0 {
        GameState {
            ball: Some(served_ball(s.last_winner)),
            active_balls: ActiveBalls(1),
            ..s
        }
    } else {
        s
    }
}

/// The ball's bounding box.
pub open spec fn ball_box(b: Ball) -> Aabb {
    Aabb { cx: b.x, cy: b.y, hw: (BALL_SIZE / 2) as i64, hh: (BALL_SIZE / 2) as i64 }
}

pub open spec fn paddle_box(win: WinSize, p: Paddle) -> Aabb {
    let x = if p.handle == 0 {
        -win.paddle_x()
    } else {
        win.paddle_x()
    };
    Aabb { cx: x as i64, cy: p.y, hw: (PADDLE_WIDTH / 2) as i64, hh: (PADDLE_HEIGHT / 2) as i64 }
}

/// The colliders, in the fixed order in which the ball is tested against them:
/// left goal, right goal, top wall, bottom wall, left paddle, right paddle.
pub open spec fn colliders_spec(s: GameState) -> Seq<(Collider, Aabb)> {
    let w = s.win_size.w;
    let h = s.win_size.h;
    let gw = (VERTICAL_WALL_WIDTH / 2) as i64;
    let ww = (HORIZONTAL_WALL_WIDTH / 2) as i64;
    seq![
        (Collider::LeftGoal, Aabb { cx: (-w / 2) as i64, cy: 0, hw: gw, hh: (h / 2) as i64 }),
        (Collider::RightGoal, Aabb { cx: (w / 2) as i64, cy: 0, hw: gw, hh: (h / 2) as i64 }),
        (Collider::Solid, Aabb { cx: 0, cy: (h / 2) as i64, hw: (w / 2) as i64, hh: ww }),
        (Collider::Solid, Aabb { cx: 0, cy: (-h / 2) as i64, hw: (w / 2) as i64, hh: ww }),
        (Collider::Solid, paddle_box(s.win_size, s.left_paddle)),
        (Collider::Solid, paddle_box(s.win_size, s.right_paddle)),
    ]
}

/// The first collider from index `i` on that the box hits, and the side hit.
pub open spec fn first_hit(a: Aabb, cs: Seq<(Collider, Aabb)>, i: int) -> Option<(Collider, Collision)>
    decreases cs.len() - i,
{
    if i < 0 || i >= cs.len() {
        None
    } else {
        match collide_spec(a, cs[i].1) {
            Some(c) => Some((cs[i].0, c)),
            None => first_hit(a, cs, i + 1),
        }
    }
}

/// The velocity after hitting a solid collider on side `c`: the component
/// moving into the collider flips.
pub open spec fn reflect(b: Ball, c: Collision) -> Ball {
    match c {
        Collision::Left => if b.vx > 0 { Ball { vx: (-b.vx) as i64, ..b } } else { b },
        Collision::Right => if b.vx < 0 { Ball { vx: (-b.vx) as i64, ..b } } else { b },
        Collision::Top => if b.vy < 0 { Ball { vy: (-b.vy) as i64, ..b } } else { b },
        Collision::Bottom => if b.vy > 0 { Ball { vy: (-b.vy) as i64, ..b } } else { b },
    }
}

/// The state after `side` scores a goal: the ball leaves play.
pub open spec fn goal(s: GameState, side: Side) -> GameState {
    GameState {
        scoreboard: match side {
            Side::Left => Scoreboard { left: (s.scoreboard.left + 1) as u32, ..s.scoreboard },
            Side::Right => Scoreboard { right: (s.scoreboard.right + 1) as u32, ..s.scoreboard },
        },
        ball: None,
        active_balls: ActiveBalls((s.active_balls.0 - 1) as u32),
        last_winner: LastWinner(side),
        ..s
    }
}

/// Collision/score stage.
pub open spec fn collision_spec(s: GameState) -> GameState {
    match s.ball {
        None => s,
        Some(b) => match first_hit(ball_box(b), colliders_spec(s), 0) {
            None => s,
            Some((Collider::LeftGoal, _)) => goal(s, Side::Right),
            Some((Collider::RightGoal, _)) => goal(s, Side::Left),
            Some((Collider::Solid, c)) => GameState { ball: Some(reflect(b, c)), ..s },
        },
    }
}

/// Direction of travel a payload asks for: up alone +1, down alone -1, else 0.
pub open spec fn direction(b: u8) -> int {
    let up = b & INPUT_UP != 0;
    let down = b & INPUT_DOWN != 0;
    if up && !down {
        1
    } else if down && !up {
        -1
    } else {
        0
    }
}

pub open spec fn clamp(y: int, bound: int) -> int {
    if y > bound {
        bound
    } else if y < -bound {
        -bound
    } else {
        y
    }
}

pub open spec fn moved_paddle(win: WinSize, p: Paddle, b: u8) -> Paddle {
    Paddle { y: clamp(p.y + direction(b) * PADDLE_SPEED, win.bound()) as i64, ..p }
}

/// Move-paddle stage.
pub open spec fn move_paddles_spec(s: GameState, inputs: InputFrame) -> GameState {
    GameState {
        left_paddle: moved_paddle(s.win_size, s.left_paddle, inputs.of(s.left_paddle.handle)),
        right_paddle: moved_paddle(s.win_size, s.right_paddle, inputs.of(s.right_paddle.handle)),
        ..s
    }
}

/// Move-ball stage.
pub open spec fn move_ball_spec(s: GameState) -> GameState {
    match s.ball {
        Some(b) => GameState {
            ball: Some(Ball { x: (b.x + b.vx) as i64, y: (b.y + b.vy) as i64, ..b }),
            ..s
        },
        None => s,
    }
}

/// Advance-frame-counter stage.
pub open spec fn advance_frame_spec(s: GameState) -> GameState {
    GameState { frame_count: FrameCount { frame: (s.frame_count.frame + 1) as u32 }, ..s }
}

/// One tick of the transition pipeline: spawn-ball, collision/score,
/// move-paddle, move-ball, (scoreboard projection), advance-frame-counter.
#[verifier::opaque]
pub open spec fn step_spec(s: GameState, inputs: InputFrame) -> GameState {
    advance_frame_spec(move_ball_spec(move_paddles_spec(collision_spec(spawn_spec(s)), inputs)))
}

/// The state after running one tick per input frame, in order.
pub open spec fn run_spec(s: GameState, inputs: Seq<InputFrame>) -> GameState
    decreases inputs.len(),
{
    if inputs.len() == 0 {
        s
    } else {
        step_spec(run_spec(s, inputs.drop_last()), inputs.last())
    }
}

/// Spawn-ball stage: with no ball in play, serves one from the center toward
/// the side of the last winner.
pub fn spawn_ball_system(state: &mut GameState)
    requires
        old(state).core_wf(),
    ensures
        *final(state) == spawn_spec(*old(state)),
        final(state).core_wf(),
{
    if state.active_balls.0 < 1 {
        let v: i64 = match state.last_winner.0 {
            Side::Left => -BALL_AXIS_SPEED,
            Side::Right => BALL_AXIS_SPEED,
        };
        state.ball = Some(Ball { x: 0, y: 0, vx: v, vy: v });
        state.active_balls = ActiveBalls(state.active_balls.0 + 1);
    }
}

fn paddle_box_exec(win: WinSize, p: Paddle) -> (r: Aabb)
    requires
        win.wf(),
        abs(p.y as int) <= win.bound(),
    ensures
        r == paddle_box(win, p),
        r.in_range(),
{
    let x = if p.handle == 0 {
        -(win.w * 2 / 5)
    } else {
        win.w * 2 / 5
    };
    Aabb { cx: x, cy: p.y, hw: PADDLE_WIDTH / 2, hh: PADDLE_HEIGHT / 2 }
}

/// The colliders of a state, in the order in which the ball is tested against them.
pub fn colliders(s: &GameState) -> (r: Vec<(Collider, Aabb)>)
    requires
        s.core_wf(),
    ensures
        r@ == colliders_spec(*s),
        forall|i: int| 0 <= i < r@.len() ==> (#[trigger] r@[i]).1.in_range(),
{
    let w = s.win_size.w;
    let h = s.win_size.h;
    let gw = VERTICAL_WALL_WIDTH / 2;
    let ww = HORIZONTAL_WALL_WIDTH / 2;
    let left_x = -(w / 2);
    let bottom_y = -(h / 2);
    let r = vec![
        (Collider::LeftGoal, Aabb { cx: left_x, cy: 0, hw: gw, hh: h / 2 }),
        (Collider::RightGoal, Aabb { cx: w / 2, cy: 0, hw: gw, hh: h / 2 }),
        (Collider::Solid, Aabb { cx: 0, cy: h / 2, hw: w / 2, hh: ww }),
        (Collider::Solid, Aabb { cx: 0, cy: bottom_y, hw: w / 2, hh: ww }),
        (Collider::Solid, paddle_box_exec(s.win_size, s.left_paddle)),
        (Collider::Solid, paddle_box_exec(s.win_size, s.right_paddle)),
    ];
    assert(r@ =~= colliders_spec(*s));
    r
}

fn reflect_exec(b: Ball, c: Collision) -> (r: Ball)
    requires
        abs(b.vx as int) == BALL_AXIS_SPEED,
        abs(b.vy as int) == BALL_AXIS_SPEED,
    ensures
        r == reflect(b, c),
{
    match c {
        Collision::Left => if b.vx > 0 { Ball { vx: -b.vx, ..b } } else { b },
        Collision::Right => if b.vx < 0 { Ball { vx: -b.vx, ..b } } else { b },
        Collision::Top => if b.vy < 0 { Ball { vy: -b.vy, ..b } } else { b },
        Collision::Bottom => if b.vy > 0 { Ball { vy: -b.vy, ..b } } else { b },
    }
}

/// Collision/score stage: tests the ball against the colliders in their fixed
/// order and acts on the first one it hits. A goal scores for the other side,
/// takes the ball out of play and records the scorer; a solid collider turns
/// back the velocity component that moves into it.
pub fn ball_collision_system(state: &mut GameState)
    requires
        old(state).core_wf(),
        old(state).scoreboard.left < u32::MAX,
        old(state).scoreboard.right < u32::MAX,
    ensures
        *final(state) == collision_spec(*old(state)),
        final(state).core_wf(),
{
    let b = match state.ball {
        Some(b) => b,
        None => return,
    };
    let a = Aabb { cx: b.x, cy: b.y, hw: BALL_SIZE / 2, hh: BALL_SIZE / 2 };
    let cs = colliders(state);
    let ghost s0 = *state;
    let mut i: usize = 0;
    while i < cs.len()
        invariant
            0 <= i <= cs@.len(),
            cs@ == colliders_spec(s0),
            *state == s0,
            s0 == *old(state),
            s0.core_wf(),
            s0.scoreboard.left < u32::MAX,
            s0.scoreboard.right < u32::MAX,
            s0.ball == Some(b),
            a == ball_box(b),
            a.in_range(),
            forall|j: int| 0 <= j < cs@.len() ==> (#[trigger] cs@[j]).1.in_range(),
            first_hit(a, cs@, 0) == first_hit(a, cs@, i as int),
        decreases cs.len() - i,
    {
        let (kind, bx) = cs[i];
        match collide(a, bx) {
            Some(c) => {
                assert(first_hit(a, cs@, i as int) == Some((kind, c)));
                match kind {
                    Collider::LeftGoal => {
                        state.scoreboard.right = state.scoreboard.right + 1;
                        state.ball = None;
                        state.active_balls = ActiveBalls(state.active_balls.0 - 1);
                        state.last_winner = LastWinner(Side::Right);
                    },
                    Collider::RightGoal => {
                        state.scoreboard.left = state.scoreboard.left + 1;
                        state.ball = None;
                        state.active_balls = ActiveBalls(state.active_balls.0 - 1);
                        state.last_winner = LastWinner(Side::Left);
                    },
                    Collider::Solid => {
                        state.ball = Some(reflect_exec(b, c));
                    },
                }
                return;
            },
            None => {},
        }
        i = i + 1;
    }
}

fn direction_exec(b: u8) -> (r: i64)
    ensures
        r == direction(b),
{
    let up = b & INPUT_UP != 0;
    let down = b & INPUT_DOWN != 0;
    if up && !down {
        1
    } else if down && !up {
        -1
    } else {
        0
    }
}

fn move_one_paddle(win: WinSize, p: Paddle, b: u8) -> (r: Paddle)
    requires
        win.wf(),
        abs(p.y as int) <= win.bound(),
    ensures
        r == moved_paddle(win, p, b),
        abs(r.y as int) <= win.bound(),
{
    let bound = win.h / 2 - PADDLE_HEIGHT / 2 - HORIZONTAL_WALL_WIDTH / 2;
    let y = p.y + direction_exec(b) * PADDLE_SPEED;
    let y = if y > bound {
        bound
    } else if y < -bound {
        -bound
    } else {
        y
    };
    Paddle { y, ..p }
}

/// Move-paddle stage: each paddle moves by its owner's input for this tick,
/// then is held within the field.
pub fn move_paddle_system(state: &mut GameState, inputs: InputFrame)
    requires
        old(state).core_wf(),
    ensures
        *final(state) == move_paddles_spec(*old(state), inputs),
        final(state).core_wf(),
{
    state.left_paddle = move_one_paddle(state.win_size, state.left_paddle, inputs.p0);
    state.right_paddle = move_one_paddle(state.win_size, state.right_paddle, inputs.p1);
}

/// Move-ball stage: the ball, if any, moves by its velocity.
pub fn move_ball_system(state: &mut GameState)
    requires
        old(state).core_wf(),
    ensures
        *final(state) == move_ball_spec(*old(state)),
{
    if let Some(b) = state.ball {
        state.ball = Some(Ball { x: b.x + b.vx, y: b.y + b.vy, ..b });
    }
}

/// Scoreboard stage: the score pair that the display shows.
pub fn scoreboard_system(state: &GameState) -> (r: Scoreboard)
    ensures
        r == state.scoreboard,
{
    state.scoreboard
}

/// Advance-frame-counter stage.
pub fn increase_frame_system(frame_count: &mut FrameCount)
    requires
        old(frame_count).frame < u32::MAX,
    ensures
        final(frame_count).frame == old(frame_count).frame + 1,
{
    frame_count.frame = frame_count.frame + 1;
}

/// The payload bits for the pressed keys.
pub open spec fn encode_input(up: bool, down: bool) -> u8 {
    (if up { INPUT_UP } else { 0u8 }) | (if down { INPUT_DOWN } else { 0u8 })
}

/// The one-byte input payload for the current key state.
pub fn input(up_pressed: bool, down_pressed: bool) -> (r: Vec<u8>)
    ensures
        r@ == seq![encode_input(up_pressed, down_pressed)],
        direction(r@[0]) == (if up_pressed && !down_pressed {
            1int
        } else if down_pressed && !up_pressed {
            -1int
        } else {
            0int
        }),
{
    let b: u8 = (if up_pressed { INPUT_UP } else { 0u8 }) | (if down_pressed { INPUT_DOWN } else { 0u8 });
    proof {
        assert((1u8 | 0u8) & 1u8 != 0 && (1u8 | 0u8) & 2u8 == 0) by (bit_vector);
        assert((0u8 | 2u8) & 1u8 == 0 && (0u8 | 2u8) & 2u8 != 0) by (bit_vector);
        assert((1u8 | 2u8) & 1u8 != 0 && (1u8 | 2u8) & 2u8 != 0) by (bit_vector);
        assert((0u8 | 0u8) & 1u8 == 0 && (0u8 | 0u8) & 2u8 == 0) by (bit_vector);
    }
    vec![b]
}

/// The state at the start of a match: both paddles centered, no ball, no
/// score, the left side as last winner, frame 0.
pub open spec fn setup_spec(win_size: WinSize) -> GameState {
    GameState {
        win_size,
        left_paddle: Paddle { handle: 0, y: 0 },
        right_paddle: Paddle { handle: 1, y: 0 },
        ball: None,
        active_balls: ActiveBalls(0),
        scoreboard: Scoreboard { left: 0, right: 0 },
        last_winner: LastWinner(LEFT_PADDLE),
        frame_count: FrameCount { frame: 0 },
    }
}

/// Builds the field: the two paddles, an empty scoreboard, no ball yet.
pub fn setup_system(win_size: WinSize) -> (r: GameState)
    requires
        win_size.wf(),
    ensures
        r == setup_spec(win_size),
        r.wf(),
{
    GameState {
        win_size,
        left_paddle: Paddle { handle: 0, y: 0 },
        right_paddle: Paddle { handle: 1, y: 0 },
        ball: None,
        active_balls: ActiveBalls(0),
        scoreboard: Scoreboard { left: 0, right: 0 },
        last_winner: LastWinner(LEFT_PADDLE),
        frame_count: FrameCount { frame: 0 },
    }
}

/// Runs one tick of the transition pipeline on the state, with the input frame
/// of that tick.
pub fn step(state: &mut GameState, inputs: InputFrame)
    requires
        old(state).wf(),
        old(state).frame_count.frame < u32::MAX,
    ensures
        *final(state) == step_spec(*old(state), inputs),
        final(state).wf(),
        final(state).frame_count.frame == old(state).frame_count.frame + 1,
        final(state).win_size == old(state).win_size,
{
    proof {
        lemma_step_wf(*state, inputs);
        reveal(step_spec);
    }
    spawn_ball_system(state);
    ball_collision_system(state);
    move_paddle_system(state, inputs);
    move_ball_system(state);
    let _score = scoreboard_system(state);
    increase_frame_system(&mut state.frame_count);
}

/// One tick keeps the invariant and advances the frame counter by one.
pub proof fn lemma_step_wf(s: GameState, inputs: InputFrame)
    requires
        s.wf(),
        s.frame_count.frame < u32::MAX,
    ensures
        step_spec(s, inputs).wf(),
        step_spec(s, inputs).frame_count.frame == s.frame_count.frame + 1,
        step_spec(s, inputs).win_size == s.win_size,
{
    reveal(step_spec);
    let s1 = spawn_spec(s);
    let s2 = collision_spec(s1);
    let s3 = move_paddles_spec(s2, inputs);
    let s4 = move_ball_spec(s3);
    assert(s1.core_wf());
    assert(s2.core_wf()) by {
        match s1.ball {
            None => {},
            Some(b) => {
                match first_hit(ball_box(b), colliders_spec(s1), 0) {
                    None => {},
                    Some((k, c)) => {
                        lemma_reflect_speed(b, c);
                    },
                }
            },
        }
    }
    assert(BALL_AXIS_SPEED * (s.frame_count.frame + 1) <= BALL_POS_LIMIT);
}

proof fn lemma_reflect_speed(b: Ball, c: Collision)
    requires
        abs(b.vx as int) == BALL_AXIS_SPEED,
        abs(b.vy as int) == BALL_AXIS_SPEED,
    ensures
        abs(reflect(b, c).vx as int) == BALL_AXIS_SPEED,
        abs(reflect(b, c).vy as int) == BALL_AXIS_SPEED,
        reflect(b, c).x == b.x,
        reflect(b, c).y == b.y,
{
}

/// Over any sequence of ticks the invariant holds: at most one ball, the
/// paddles within the field, and the frame counter equal to the number of
/// ticks run.
pub proof fn lemma_run_wf(s: GameState, inputs: Seq<InputFrame>)
    requires
        s.wf(),
        s.frame_count.frame + inputs.len() <= u32::MAX,
    ensures
        run_spec(s, inputs).wf(),
        run_spec(s, inputs).frame_count.frame == s.frame_count.frame + inputs.len(),
        run_spec(s, inputs).active_balls.0 <= 1,
        abs(run_spec(s, inputs).left_paddle.y as int) <= s.win_size.bound(),
        abs(run_spec(s, inputs).right_paddle.y as int) <= s.win_size.bound(),
        run_spec(s, inputs).win_size == s.win_size,
    decreases inputs.len(),
{
    if inputs.len() > 0 {
        lemma_run_wf(s, inputs.drop_last());
        lemma_step_wf(run_spec(s, inputs.drop_last()), inputs.last());
    }
}

/// In one tick each score grows by at most one, and never both.
pub proof fn lemma_score_step(s: GameState, inputs: InputFrame)
    requires
        s.wf(),
        s.frame_count.frame < u32::MAX,
    ensures
        ({
            let r = step_spec(s, inputs).scoreboard;
            ||| r == s.scoreboard
            ||| r.left == s.scoreboard.left + 1 && r.right == s.scoreboard.right
            ||| r.left == s.scoreboard.left && r.right == s.scoreboard.right + 1
        }),
{
    reveal(step_spec);
}

/// Scores never decrease over any sequence of ticks.
pub proof fn lemma_scores_monotone(s: GameState, inputs: Seq<InputFrame>)
    requires
        s.wf(),
        s.frame_count.frame + inputs.len() <= u32::MAX,
    ensures
        run_spec(s, inputs).scoreboard.left >= s.scoreboard.left,
        run_spec(s, inputs).scoreboard.right >= s.scoreboard.right,
    decreases inputs.len(),
{
    if inputs.len() > 0 {
        let prefix = inputs.drop_last();
        lemma_scores_monotone(s, prefix);
        lemma_run_wf(s, prefix);
        lemma_score_step(run_spec(s, prefix), inputs.last());
    }
}

/// A tick that starts with no ball in play ends with a ball in play.
pub proof fn lemma_respawn(s: GameState, inputs: InputFrame)
    requires
        s.wf(),
        s.frame_count.frame < u32::MAX,
        s.active_balls.0 == 0,
    ensures
        step_spec(s, inputs).active_balls.0 == 1,
        step_spec(s, inputs).ball.is_some(),
{
    reveal(step_spec);
    let s1 = spawn_spec(s);
    reveal_with_fuel(first_hit, 7);
    assert(first_hit(ball_box(served_ball(s.last_winner)), colliders_spec(s1), 0).is_none());
}

/// The pipeline is a function of its inputs: equal starting states and equal
/// input sequences give equal states.
pub proof fn lemma_determinism(s: GameState, t: GameState, inputs: Seq<InputFrame>, same: Seq<InputFrame>)
    requires
        s == t,
        inputs == same,
    ensures
        run_spec(s, inputs) == run_spec(t, same),
{
}

/// Running two input sequences one after the other is running their
/// concatenation.
pub proof fn lemma_run_concat(s: GameState, a: Seq<InputFrame>, b: Seq<InputFrame>)
    ensures
        run_spec(run_spec(s, a), b) == run_spec(s, a + b),
    decreases b.len(),
{
    if b.len() == 0 {
        assert(a + b =~= a);
    } else {
        lemma_run_concat(s, a, b.drop_last());
        assert((a + b).drop_last() =~= a + b.drop_last());
        assert((a + b).last() == b.last());
    }
}

impl WinSize {
    /// Whether the field size is one the simulation takes.
    pub fn is_valid(&self) -> (r: bool)
        ensures
            r == self.wf(),
    {
        MIN_WIN_EXTENT <= self.w && self.w <= MAX_WIN_EXTENT && MIN_WIN_EXTENT <= self.h && self.h
            <= MAX_WIN_EXTENT && self.w % 10 == 0 && self.h % 2 == 0
    }
}

impl GameState {
    /// Whether the state meets the invariant of a state between ticks.
    pub fn is_valid(&self) -> (r: bool)
        ensures
            r == self.wf(),
    {
        let w = self.win_size;
        if !w.is_valid() {
            return false;
        }
        let bound = w.h / 2 - PADDLE_HEIGHT / 2 - HORIZONTAL_WALL_WIDTH / 2;
        if !(self.left_paddle.handle == 0 && self.right_paddle.handle == 1) {
            return false;
        }
        if !(-bound <= self.left_paddle.y && self.left_paddle.y <= bound && -bound
            <= self.right_paddle.y && self.right_paddle.y <= bound) {
            return false;
        }
        if self.active_balls.0 > 1 || (self.active_balls.0 == 1) != self.ball.is_some() {
            return false;
        }
        if self.scoreboard.left as u64 + self.scoreboard.right as u64 > self.frame_count.frame as u64 {
            return false;
        }
        match self.ball {
            Some(b) => {
                let reach = BALL_AXIS_SPEED * self.frame_count.frame as i64;
                (b.vx == BALL_AXIS_SPEED || b.vx == -BALL_AXIS_SPEED) && (b.vy == BALL_AXIS_SPEED
                    || b.vy == -BALL_AXIS_SPEED) && -reach <= b.x && b.x <= reach && -reach <= b.y
                    && b.y <= reach
            },
            None => true,
        }
    }
}

/// Runs one tick per input frame, in order.
pub fn run(state: &mut GameState, frames: &Vec<InputFrame>)
    requires
        old(state).wf(),
        old(state).frame_count.frame + frames@.len() <= u32::MAX,
    ensures
        *final(state) == run_spec(*old(state), frames@),
        final(state).wf(),
{
    let ghost s0 = *state;
    let mut i: usize = 0;
    while i < frames.len()
        invariant
            0 <= i <= frames@.len(),
            s0.frame_count.frame + frames@.len() <= u32::MAX,
            state.wf(),
            state.frame_count.frame == s0.frame_count.frame + i,
            *state == run_spec(s0, frames@.subrange(0, i as int)),
        decreases frames@.len() - i,
    {
        step(state, frames[i]);
        proof {
            let p = frames@.subrange(0, i + 1);
            assert(p.drop_last() =~= frames@.subrange(0, i as int));
        }
        i = i + 1;
    }
    proof {
        assert(frames@.subrange(0, frames@.len() as int) =~= frames@);
    }
}

/// The state at the first tick of a match: the field set up and the first
/// ball served.
pub fn start_match(win_size: WinSize) -> (r: GameState)
    requires
        win_size.wf(),
    ensures
        r == spawn_spec(setup_spec(win_size)),
        r.wf(),
{
    let mut s = setup_system(win_size);
    spawn_ball_system(&mut s);
    s
}

} // verus!
