use p2pong::pong::{run, start_match, step, GameState, InputFrame, WinSize, INPUT_DOWN, INPUT_UP, PADDLE_SPEED};
use p2pong::rollback::{Request, RestoreError, Scheduler, SchedulerError, Snapshot, SyncResult};
use p2pong::session::{plan_session, ConfigError, PlayerKind, LOCAL_FRAME_DELAY};

fn field() -> WinSize {
    WinSize { w: 1_200_000, h: 720_000 }
}

fn idle() -> InputFrame {
    InputFrame { p0: 0, p1: 0 }
}

#[test]
fn rollback_corrects_paddle_direction() {
    let mut sch = Scheduler::new(start_match(field()), 8);
    for _ in 0..3 {
        sch.on_sync_result(SyncResult::Advance(idle())).unwrap();
    }
    let t = sch.state.frame_count.frame;
    let y_at_t = sch.state.right_paddle.y;
    let up = InputFrame { p0: 0, p1: INPUT_UP };
    for _ in 0..4 {
        sch.on_sync_result(SyncResult::Advance(up)).unwrap();
    }
    assert_eq!(sch.state.right_paddle.y, y_at_t + 4 * PADDLE_SPEED);
    let down = InputFrame { p0: 0, p1: INPUT_DOWN };
    let r = sch.on_sync_result(SyncResult::Rollback { to_tick: t, corrected: vec![down; 4] });
    assert_eq!(r, Ok(()));
    assert_eq!(sch.state.right_paddle.y, y_at_t - 4 * PADDLE_SPEED);
    assert_eq!(sch.state.frame_count.frame, t + 4);
    assert_eq!(sch.snapshots.len(), sch.inputs.len() + 1);
    assert_eq!(sch.snapshots.last().unwrap().state, sch.state);
}

#[test]
fn rollback_with_partial_correction_keeps_later_inputs() {
    let mut sch = Scheduler::new(start_match(field()), 8);
    let up = InputFrame { p0: INPUT_UP, p1: 0 };
    for _ in 0..4 {
        sch.advance(up).unwrap();
    }
    let down = InputFrame { p0: INPUT_DOWN, p1: 0 };
    sch.rollback(1, &vec![down]).unwrap();
    assert_eq!(sch.inputs, vec![up, down, up, up]);
    assert_eq!(sch.state.left_paddle.y, 2 * PADDLE_SPEED);
}

#[test]
fn stall_changes_nothing() {
    let mut sch = Scheduler::new(start_match(field()), 8);
    sch.advance(idle()).unwrap();
    let frame = sch.state.frame_count.frame;
    let held = sch.snapshots.len();
    for _ in 0..3 {
        assert_eq!(sch.on_sync_result(SyncResult::Stall), Ok(()));
    }
    assert_eq!(sch.state.frame_count.frame, frame);
    assert_eq!(sch.snapshots.len(), held);
}

#[test]
fn replay_from_snapshot_matches() {
    let mut sch = Scheduler::new(start_match(field()), 16);
    for i in 0..12u8 {
        sch.advance(InputFrame { p0: i % 3, p1: (i + 1) % 3 }).unwrap();
    }
    let mut s = sch.snapshots[2].state;
    run(&mut s, &sch.inputs[2..10].to_vec());
    assert_eq!(s, sch.snapshots[10].state);
}

#[test]
fn snapshots_pruned_to_window() {
    let mut sch = Scheduler::new(start_match(field()), 4);
    for _ in 0..10 {
        sch.advance(idle()).unwrap();
    }
    assert_eq!(sch.snapshots.len(), 5);
    assert_eq!(sch.inputs.len(), 4);
    assert_eq!(sch.snapshots[0].tick, 6);
    assert_eq!(sch.rollback(5, &vec![]), Err(SchedulerError::UnknownTick));
    assert_eq!(sch.rollback(11, &vec![]), Err(SchedulerError::UnknownTick));
    assert_eq!(sch.rollback(8, &vec![idle(); 3]), Err(SchedulerError::TooManyInputs));
    assert_eq!(sch.rollback(8, &vec![idle(); 2]), Ok(()));
    assert_eq!(sch.state.frame_count.frame, 10);
}

#[test]
fn disconnect_ends_session() {
    let mut sch = Scheduler::new(start_match(field()), 8);
    sch.advance(idle()).unwrap();
    let state = sch.state;
    assert_eq!(sch.on_sync_result(SyncResult::Disconnected), Err(SchedulerError::SessionEnded));
    assert!(sch.ended);
    assert!(sch.snapshots.is_empty());
    assert_eq!(sch.state, state);
    assert_eq!(sch.on_sync_result(SyncResult::Advance(idle())), Err(SchedulerError::SessionEnded));
    assert_eq!(sch.on_sync_result(SyncResult::Stall), Err(SchedulerError::SessionEnded));
    assert_eq!(sch.state, state);
}

#[test]
fn frame_limit_refused() {
    let mut s = start_match(field());
    s.frame_count.frame = u32::MAX;
    let mut sch = Scheduler::new(s, 8);
    assert_eq!(sch.advance(idle()), Err(SchedulerError::FrameLimit));
}

#[test]
fn restore_snapshot() {
    let mut s = start_match(field());
    let snap = s.snapshot();
    assert_eq!(snap.tick, 0);
    for _ in 0..5 {
        step(&mut s, idle());
    }
    assert_eq!(s.restore(&snap), Ok(()));
    assert_eq!(s, start_match(field()));
}

#[test]
fn restore_rejects_bad_snapshots() {
    let mut s = start_match(field());
    step(&mut s, idle());
    let before = s;
    let mistagged = Snapshot { tick: 7, state: start_match(field()) };
    assert_eq!(s.restore(&mistagged), Err(RestoreError::Malformed));
    let other = start_match(WinSize { w: 800_000, h: 600_000 });
    assert_eq!(s.restore(&other.snapshot()), Err(RestoreError::Foreign));
    let mut broken: GameState = start_match(field());
    broken.left_paddle.y = 1_000_000;
    assert_eq!(s.restore(&broken.snapshot()), Err(RestoreError::Malformed));
    assert_eq!(s, before);
}

#[test]
fn plan_two_players() {
    let plan = plan_session(&vec!["localhost".to_string(), "10.0.0.2:7000".to_string()]).unwrap();
    assert_eq!(plan.kinds, vec![PlayerKind::Local, PlayerKind::Remote]);
    assert_eq!(plan.local_handle, 0);
    assert_eq!(plan.frame_delay, LOCAL_FRAME_DELAY);
    let plan = plan_session(&vec!["10.0.0.1:7000".to_string(), "localhost".to_string()]).unwrap();
    assert_eq!(plan.kinds, vec![PlayerKind::Remote, PlayerKind::Local]);
    assert_eq!(plan.local_handle, 1);
    let plan = plan_session(&vec!["localhost".to_string(), "localhost".to_string()]).unwrap();
    assert_eq!(plan.kinds, vec![PlayerKind::Local, PlayerKind::Local]);
    assert_eq!(plan.local_handle, 1);
}

#[test]
fn plan_wrong_count() {
    assert_eq!(
        plan_session(&vec!["localhost".to_string()]).unwrap_err(),
        ConfigError::WrongPlayerCount
    );
    assert_eq!(plan_session(&vec![]).unwrap_err(), ConfigError::WrongPlayerCount);
    let three = vec!["localhost".to_string(), "a:1".to_string(), "b:2".to_string()];
    assert_eq!(plan_session(&three).unwrap_err(), ConfigError::WrongPlayerCount);
}

#[test]
fn load_then_advance_replays() {
    let mut sch = Scheduler::new(start_match(field()), 8);
    let up = InputFrame { p0: 0, p1: INPUT_UP };
    assert_eq!(sch.on_request(Request::Save(0)), Ok(()));
    for _ in 0..5 {
        sch.on_request(Request::Advance(up)).unwrap();
    }
    assert_eq!(sch.on_request(Request::Save(4)), Err(SchedulerError::UnknownTick));
    let at_two = sch.snapshots[2].state;
    assert_eq!(sch.on_request(Request::Load(2)), Ok(()));
    assert_eq!(sch.state, at_two);
    assert_eq!(sch.snapshots.len(), 3);
    assert_eq!(sch.inputs.len(), 2);
    let down = InputFrame { p0: 0, p1: INPUT_DOWN };
    for _ in 0..3 {
        sch.on_request(Request::Advance(down)).unwrap();
    }
    assert_eq!(sch.state.frame_count.frame, 5);
    assert_eq!(sch.state.right_paddle.y, 2 * PADDLE_SPEED - 3 * PADDLE_SPEED);
    assert_eq!(sch.on_request(Request::Load(6)), Err(SchedulerError::UnknownTick));
}
