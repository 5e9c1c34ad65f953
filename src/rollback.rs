use vstd::prelude::*;
use crate::pong::{GameState, InputFrame, run_spec, step, step_spec, lemma_step_wf};

verus! {

/// A copy of the whole simulation state, tagged with the tick it was taken at.
#[derive(Clone, Copy, Debug, PartialEq, Eq, Structural)]
pub struct Snapshot {
    pub tick: u32,
    pub state: GameState,
}

/// Why a snapshot was not restored.
#[derive(Clone, Copy, Debug, PartialEq, Eq, Structural)]
pub enum RestoreError {
    /// The snapshot's tag differs from its frame counter, or its state breaks
    /// the invariant.
    Malformed,
    /// The snapshot was taken on a field of another size.
    Foreign,
}

impl Snapshot {
    /// The tag agrees with the state, and the state meets the invariant.
    pub open spec fn wf(self) -> bool {
        self.tick == self.state.frame_count.frame && self.state.wf()
    }
}

impl GameState {
    pub open spec fn snapshot_spec(self) -> Snapshot {
        Snapshot { tick: self.frame_count.frame, state: self }
    }

    /// A copy of the state, tagged with its frame counter.
    pub fn snapshot(&self) -> (r: Snapshot)
        ensures
            r == self.snapshot_spec(),
    {
        Snapshot { tick: self.frame_count.frame, state: *self }
    }

    /// Overwrites the state with a snapshot's, unless the snapshot is
    /// malformed or was taken on a field of another size.
    pub fn restore(&mut self, snap: &Snapshot) -> (r: Result<(), RestoreError>)
        ensures
            r == (if !snap.wf() {
                Err(RestoreError::Malformed)
            } else if snap.state.win_size != old(self).win_size {
                Err(RestoreError::Foreign)
            } else {
                Ok(())
            }),
            r.is_ok() ==> *final(self) == snap.state,
            r.is_err() ==> *final(self) == *old(self),
    {
        if snap.tick != snap.state.frame_count.frame || !snap.state.is_valid() {
            return Err(RestoreError::Malformed);
        }
        if snap.state.win_size != self.win_size {
            return Err(RestoreError::Foreign);
        }
        *self = snap.state;
        Ok(())
    }
}

/// What the session answers to the local input of one frame-clock tick.
#[derive(Debug)]
pub enum SyncResult {
    /// The next tick runs with this input frame.
    Advance(InputFrame),
    /// The inputs of ticks `to_tick`, `to_tick + 1`, ... were corrected; the
    /// ticks from `to_tick` on run again.
    Rollback { to_tick: u32, corrected: Vec<InputFrame> },
    /// Not enough input is known yet: nothing runs this frame.
    Stall,
    /// The remote peer stopped answering: the match is over.
    Disconnected,
}

/// One request of the rollback session, in the order the session issues them.
#[derive(Clone, Copy, Debug, PartialEq, Eq, Structural)]
pub enum Request {
    /// Keep the state of this tick for a later load.
    Save(u32),
    /// Go back to the state of this tick.
    Load(u32),
    /// Run the next tick with this input frame.
    Advance(InputFrame),
}

/// Why the scheduler refused an instruction.
#[derive(Clone, Copy, Debug, PartialEq, Eq, Structural)]
pub enum SchedulerError {
    /// The session has ended; nothing runs any more.
    SessionEnded,
    /// The frame counter is at its largest value.
    FrameLimit,
    /// No snapshot is held for the tick to roll back to.
    UnknownTick,
    /// More corrected input frames than ticks to run again.
    TooManyInputs,
}

/// Runs the transition pipeline as the session instructs, keeping a snapshot
/// of each of the last ticks so that it can roll back to any of them.
///
/// `snapshots[k]` is the state before tick `base + k`, and `inputs[k]` the
/// input frame that tick ran with; the last snapshot is the current state.
pub struct Scheduler {
    pub state: GameState,
    pub snapshots: Vec<Snapshot>,
    pub inputs: Vec<InputFrame>,
    /// How many ticks back a rollback can reach.
    pub max_rollback: u32,
    pub ended: bool,
}

/// The input frames, with those from index `k` on replaced by `corrected`.
pub open spec fn patched(inputs: Seq<InputFrame>, k: int, corrected: Seq<InputFrame>) -> Seq<
    InputFrame,
> {
    Seq::new(
        inputs.len(),
        |i: int|
            if k <= i < k + corrected.len() {
                corrected[i - k]
            } else {
                inputs[i]
            },
    )
}

/// A sequence with its first element dropped once it is longer than `cap`.
pub open spec fn keep_last<T>(s: Seq<T>, cap: int) -> Seq<T> {
    if s.len() > cap {
        s.drop_first()
    } else {
        s
    }
}

impl Scheduler {
    /// Tick of the oldest snapshot held.
    pub open spec fn base(self) -> int {
        self.snapshots@[0].tick as int
    }

    pub open spec fn wf(self) -> bool {
        &&& self.state.wf()
        &&& if self.ended {
            self.snapshots@.len() == 0 && self.inputs@.len() == 0
        } else {
            &&& self.snapshots@.len() == self.inputs@.len() + 1
            &&& self.snapshots@.len() <= self.max_rollback + 1
            &&& forall|k: int|
                0 <= k < self.snapshots@.len() ==> (#[trigger] self.snapshots@[k]).wf()
                    && self.snapshots@[k].tick == self.base() + k
            &&& forall|k: int|
                0 <= k < self.inputs@.len() ==> self.snapshots@[k + 1].state == step_spec(
                    self.snapshots@[k].state,
                    #[trigger] self.inputs@[k],
                )
            &&& self.snapshots@.last().state == self.state
        }
    }

    /// A scheduler that starts from `state`, holding its snapshot.
    pub fn new(state: GameState, max_rollback: u32) -> (r: Scheduler)
        requires
            state.wf(),
        ensures
            r.wf(),
            !r.ended,
            r.state == state,
            r.max_rollback == max_rollback,
            r.snapshots@ == seq![Snapshot { tick: state.frame_count.frame, state }],
            r.inputs@.len() == 0,
    {
        let r = Scheduler {
            state,
            snapshots: vec![state.snapshot()],
            inputs: Vec::new(),
            max_rollback,
            ended: false,
        };
        r
    }

    /// Runs the next tick with `inputs`, snapshots the result and drops the
    /// snapshot that has left the rollback window.
    pub fn advance(&mut self, inputs: InputFrame) -> (r: Result<(), SchedulerError>)
        requires
            old(self).wf(),
        ensures
            final(self).wf(),
            final(self).max_rollback == old(self).max_rollback,
            r == (if old(self).ended {
                Err(SchedulerError::SessionEnded)
            } else if old(self).state.frame_count.frame == u32::MAX {
                Err(SchedulerError::FrameLimit)
            } else {
                Ok(())
            }),
            r.is_err() ==> *final(self) == *old(self),
            r.is_ok() ==> {
                let next = step_spec(old(self).state, inputs);
                &&& final(self).state == next
                &&& !final(self).ended
                &&& final(self).snapshots@ == keep_last(
                    old(self).snapshots@.push(Snapshot { tick: next.frame_count.frame, state: next }),
                    old(self).max_rollback + 1,
                )
                &&& final(self).inputs@ == keep_last(
                    old(self).inputs@.push(inputs),
                    old(self).max_rollback as int,
                )
            },
    {
        if self.ended {
            return Err(SchedulerError::SessionEnded);
        }
        if self.state.frame_count.frame == u32::MAX {
            return Err(SchedulerError::FrameLimit);
        }
        let ghost old_s = *self;
        step(&mut self.state, inputs);
        self.snapshots.push(self.state.snapshot());
        self.inputs.push(inputs);
        if self.snapshots.len() - 1 > self.max_rollback as usize {
            self.snapshots.remove(0);
            self.inputs.remove(0);
        }
        proof {
            let n = old_s.snapshots@.len();
            assert(old_s.snapshots@[n - 1].state == old_s.state);
            if n + 1 > old_s.max_rollback + 1 {
                assert forall|k: int| 0 <= k < self.snapshots@.len() implies (
                #[trigger] self.snapshots@[k]).wf() && self.snapshots@[k].tick == self.base()
                    + k by {
                    assert(self.snapshots@[k] == old_s.snapshots@.push(
                        self.state.snapshot_spec(),
                    )[k + 1]);
                }
                assert forall|k: int| 0 <= k < self.inputs@.len() implies self.snapshots@[k
                    + 1].state == step_spec(self.snapshots@[k].state, #[trigger] self.inputs@[k]) by {
                    assert(self.inputs@[k] == old_s.inputs@.push(inputs)[k + 1]);
                }
            } else {
                assert forall|k: int| 0 <= k < self.inputs@.len() implies self.snapshots@[k
                    + 1].state == step_spec(self.snapshots@[k].state, #[trigger] self.inputs@[k]) by {
                    if k < n - 1 {
                        assert(self.inputs@[k] == old_s.inputs@[k]);
                    }
                }
            }
        }
        Ok(())
    }

    /// Rolls back to the snapshot of `to_tick`, replaces the input frames of
    /// the ticks from `to_tick` on by `corrected`, and runs those ticks again
    /// up to the current one, snapshotting each.
    pub fn rollback(&mut self, to_tick: u32, corrected: &Vec<InputFrame>) -> (r: Result<
        (),
        SchedulerError,
    >)
        requires
            old(self).wf(),
        ensures
            final(self).wf(),
            final(self).max_rollback == old(self).max_rollback,
            r == (if old(self).ended {
                Err(SchedulerError::SessionEnded)
            } else if to_tick < old(self).base() || to_tick > old(self).state.frame_count.frame {
                Err(SchedulerError::UnknownTick)
            } else if corrected@.len() > old(self).state.frame_count.frame - to_tick {
                Err(SchedulerError::TooManyInputs)
            } else {
                Ok(())
            }),
            r.is_err() ==> *final(self) == *old(self),
            r.is_ok() ==> {
                let k = to_tick - old(self).base();
                let frames = patched(old(self).inputs@, k, corrected@);
                &&& !final(self).ended
                &&& final(self).inputs@ == frames
                &&& final(self).snapshots@.len() == old(self).snapshots@.len()
                &&& final(self).snapshots@.subrange(0, k + 1) == old(self).snapshots@.subrange(
                    0,
                    k + 1,
                )
                &&& final(self).state == run_spec(
                    old(self).snapshots@[k].state,
                    frames.subrange(k, frames.len() as int),
                )
            },
    {
        if self.ended {
            return Err(SchedulerError::SessionEnded);
        }
        let base = self.snapshots[0].tick;
        let cur = self.state.frame_count.frame;
        proof {
            assert(self.snapshots@[self.snapshots@.len() - 1].state == self.state);
        }
        if to_tick < base || to_tick > cur {
            return Err(SchedulerError::UnknownTick);
        }
        if corrected.len() > (cur - to_tick) as usize {
            return Err(SchedulerError::TooManyInputs);
        }
        let ghost old_s = *self;
        let k = (to_tick - base) as usize;
        let n = self.inputs.len();
        let c = corrected.len();
        let mut frames: Vec<InputFrame> = Vec::new();
        let mut i: usize = 0;
        while i < n
            invariant
                0 <= i <= n,
                n == old_s.inputs@.len(),
                k <= n,
                k + c <= n,
                c == corrected@.len(),
                self.inputs@ == old_s.inputs@,
                frames@ == patched(old_s.inputs@, k as int, corrected@).subrange(0, i as int),
            decreases n - i,
        {
            let f = if k <= i && i < k + c {
                corrected[i - k]
            } else {
                self.inputs[i]
            };
            frames.push(f);
            i = i + 1;
        }
        let ghost full = patched(old_s.inputs@, k as int, corrected@);
        assert(frames@ =~= full);
        let held = self.snapshots.len();
        proof {
            assert(held == n + 1);
        }
        self.inputs.truncate(k);
        self.snapshots.truncate(k + 1);
        self.state = self.snapshots[k].state;
        let ghost start = old_s.snapshots@[k as int].state;
        proof {
            assert(full.subrange(k as int, k as int) =~= Seq::<InputFrame>::empty());
        }
        let mut j: usize = k;
        while j < n
            invariant
                k <= j <= n,
                n == old_s.inputs@.len(),
                frames@ == full,
                full.len() == n,
                old_s.wf(),
                !old_s.ended,
                !self.ended,
                self.max_rollback == old_s.max_rollback,
                self.inputs@ == full.subrange(0, j as int),
                self.snapshots@.len() == j + 1,
                self.snapshots@.subrange(0, k + 1) == old_s.snapshots@.subrange(0, k + 1),
                forall|m: int|
                    0 <= m <= j ==> (#[trigger] self.snapshots@[m]).wf() && self.snapshots@[m].tick
                        == old_s.base() + m,
                forall|m: int|
                    0 <= m < j ==> self.snapshots@[m + 1].state == step_spec(
                        self.snapshots@[m].state,
                        #[trigger] self.inputs@[m],
                    ),
                self.snapshots@[j as int].state == self.state,
                self.state.wf(),
                self.state.frame_count.frame == old_s.base() + j,
                old_s.base() + n == old_s.state.frame_count.frame,
                self.state == run_spec(start, full.subrange(k as int, j as int)),
            decreases n - j,
        {
            let f = frames[j];
            let ghost prev = self.state;
            step(&mut self.state, f);
            self.inputs.push(f);
            self.snapshots.push(self.state.snapshot());
            proof {
                let s2 = full.subrange(k as int, j + 1);
                assert(s2.drop_last() =~= full.subrange(k as int, j as int));
                assert(s2.last() == f);
                assert(self.snapshots@.subrange(0, k + 1) =~= old_s.snapshots@.subrange(0, k + 1));
                assert forall|m: int| 0 <= m < j + 1 implies self.snapshots@[m + 1].state
                    == step_spec(self.snapshots@[m].state, #[trigger] self.inputs@[m]) by {
                    if m < j {
                        assert(self.inputs@[m] == full.subrange(0, j as int)[m]);
                    }
                }
            }
            j = j + 1;
        }
        proof {
            assert(self.inputs@ =~= full);
            assert(start == self.snapshots@[k as int].state) by {
                assert(self.snapshots@.subrange(0, k + 1)[k as int] == old_s.snapshots@.subrange(
                    0,
                    k + 1,
                )[k as int]);
            }
        }
        Ok(())
    }

    /// Restores the snapshot of `to_tick` and drops every snapshot and input
    /// frame newer than it; the ticks from `to_tick` on then run again.
    pub fn load(&mut self, to_tick: u32) -> (r: Result<(), SchedulerError>)
        requires
            old(self).wf(),
        ensures
            final(self).wf(),
            final(self).max_rollback == old(self).max_rollback,
            r == (if old(self).ended {
                Err(SchedulerError::SessionEnded)
            } else if to_tick < old(self).base() || to_tick > old(self).state.frame_count.frame {
                Err(SchedulerError::UnknownTick)
            } else {
                Ok(())
            }),
            r.is_err() ==> *final(self) == *old(self),
            r.is_ok() ==> {
                let k = to_tick - old(self).base();
                &&& !final(self).ended
                &&& final(self).state == old(self).snapshots@[k].state
                &&& final(self).snapshots@ == old(self).snapshots@.subrange(0, k + 1)
                &&& final(self).inputs@ == old(self).inputs@.subrange(0, k)
            },
    {
        if self.ended {
            return Err(SchedulerError::SessionEnded);
        }
        let base = self.snapshots[0].tick;
        let cur = self.state.frame_count.frame;
        proof {
            assert(self.snapshots@[self.snapshots@.len() - 1].state == self.state);
        }
        if to_tick < base || to_tick > cur {
            return Err(SchedulerError::UnknownTick);
        }
        let ghost old_s = *self;
        let k = (to_tick - base) as usize;
        let held = self.snapshots.len();
        self.inputs.truncate(k);
        self.snapshots.truncate(k + 1);
        self.state = self.snapshots[k].state;
        proof {
            assert forall|m: int| 0 <= m < self.inputs@.len() implies self.snapshots@[m + 1].state
                == step_spec(self.snapshots@[m].state, #[trigger] self.inputs@[m]) by {
                assert(self.inputs@[m] == old_s.inputs@[m]);
                assert(self.snapshots@[m + 1] == old_s.snapshots@[m + 1]);
            }
        }
        Ok(())
    }

    /// Carries out one request of the session: a save needs nothing (every
    /// tick is snapshotted), a load restores a held snapshot, an advance runs
    /// one tick.
    pub fn on_request(&mut self, request: Request) -> (r: Result<(), SchedulerError>)
        requires
            old(self).wf(),
        ensures
            final(self).wf(),
            match request {
                Request::Save(tick) => {
                    &&& r == (if old(self).ended {
                        Err(SchedulerError::SessionEnded)
                    } else if tick != old(self).state.frame_count.frame {
                        Err(SchedulerError::UnknownTick)
                    } else {
                        Ok(())
                    })
                    &&& *final(self) == *old(self)
                },
                Request::Load(tick) => {
                    &&& r == (if old(self).ended {
                        Err(SchedulerError::SessionEnded)
                    } else if tick < old(self).base() || tick > old(self).state.frame_count.frame {
                        Err(SchedulerError::UnknownTick)
                    } else {
                        Ok(())
                    })
                    &&& r.is_ok() ==> final(self).state == old(self).snapshots@[tick
                        - old(self).base()].state
                },
                Request::Advance(f) => {
                    &&& r == (if old(self).ended {
                        Err(SchedulerError::SessionEnded)
                    } else if old(self).state.frame_count.frame == u32::MAX {
                        Err(SchedulerError::FrameLimit)
                    } else {
                        Ok(())
                    })
                    &&& r.is_ok() ==> final(self).state == step_spec(old(self).state, f)
                },
            },
    {
        match request {
            Request::Save(tick) => if self.ended {
                Err(SchedulerError::SessionEnded)
            } else if tick != self.state.frame_count.frame {
                Err(SchedulerError::UnknownTick)
            } else {
                Ok(())
            },
            Request::Load(tick) => self.load(tick),
            Request::Advance(f) => self.advance(f),
        }
    }

    /// Acts on the session's answer for this frame-clock tick: runs one tick,
    /// rolls back and runs ticks again, does nothing, or ends the match.
    pub fn on_sync_result(&mut self, result: SyncResult) -> (r: Result<(), SchedulerError>)
        requires
            old(self).wf(),
        ensures
            final(self).wf(),
            old(self).ended ==> r == Err::<(), SchedulerError>(SchedulerError::SessionEnded) && *final(self) == *old(
                self,
            ),
            !old(self).ended ==> match result {
                SyncResult::Stall => r == Ok::<(), SchedulerError>(()) && *final(self) == *old(
                    self,
                ),
                SyncResult::Disconnected => {
                    &&& r == Err::<(), SchedulerError>(SchedulerError::SessionEnded)
                    &&& final(self).ended
                    &&& final(self).snapshots@.len() == 0
                    &&& final(self).state == old(self).state
                },
                SyncResult::Advance(f) => {
                    &&& r == (if old(self).state.frame_count.frame == u32::MAX {
                        Err(SchedulerError::FrameLimit)
                    } else {
                        Ok(())
                    })
                    &&& r.is_ok() ==> final(self).state == step_spec(old(self).state, f)
                },
                SyncResult::Rollback { to_tick, corrected } => {
                    &&& r == (if to_tick < old(self).base() || to_tick > old(
                        self,
                    ).state.frame_count.frame {
                        Err(SchedulerError::UnknownTick)
                    } else if corrected@.len() > old(self).state.frame_count.frame - to_tick {
                        Err(SchedulerError::TooManyInputs)
                    } else {
                        Ok(())
                    })
                    &&& r.is_ok() ==> final(self).state == run_spec(
                    old(self).snapshots@[to_tick - old(self).base()].state,
                    patched(old(self).inputs@, to_tick - old(self).base(), corrected@).subrange(
                        to_tick - old(self).base(),
                        old(self).inputs@.len() as int,
                    ),
                )
                },
            },
    {
        if self.ended {
            return Err(SchedulerError::SessionEnded);
        }
        match result {
            SyncResult::Advance(f) => self.advance(f),
            SyncResult::Rollback { to_tick, corrected } => self.rollback(to_tick, &corrected),
            SyncResult::Stall => Ok(()),
            SyncResult::Disconnected => {
                self.ended = true;
                self.snapshots.clear();
                self.inputs.clear();
                Err(SchedulerError::SessionEnded)
            },
        }
    }
}

/// Replaying the held input frames from any held snapshot gives back every
/// later held snapshot: restoring the state of tick `j` and running ticks
/// `j .. i` with the same inputs yields the state that was snapshotted at `i`.
pub proof fn lemma_replay(sch: Scheduler, j: int, i: int)
    requires
        sch.wf(),
        !sch.ended,
        0 <= j <= i < sch.snapshots@.len(),
    ensures
        run_spec(sch.snapshots@[j].state, sch.inputs@.subrange(j, i)) == sch.snapshots@[i].state,
    decreases i - j,
{
    if i == j {
        assert(sch.inputs@.subrange(j, i) =~= Seq::<InputFrame>::empty());
    } else {
        lemma_replay(sch, j, i - 1);
        let s = sch.inputs@.subrange(j, i);
        assert(s.drop_last() =~= sch.inputs@.subrange(j, i - 1));
        assert(s.last() == sch.inputs@[i - 1]);
    }
}

} // verus!
