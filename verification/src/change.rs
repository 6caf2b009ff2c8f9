//! Changing the state of a file in two calls: first its mode, then its times. The
//! second call is only made once the first has worked.

use vstd::prelude::*;
use crate::task::{ChangeProgress, ChangeTask, StatChange};

verus! {

/// A call to the host on the way of a change.
#[derive(Clone, Copy, PartialEq, Eq, Structural, Debug)]
pub enum ChangeCall {
    SetMode { mode: u32 },
    SetTimes { atime_sec: i64, atime_nsec: i64, mtime_sec: i64, mtime_nsec: i64 },
}

/// The call that sets the mode.
pub open spec fn mode_call(change: StatChange) -> ChangeCall {
    ChangeCall::SetMode { mode: change.mode }
}

/// The call that sets the two times.
pub open spec fn times_call(change: StatChange) -> ChangeCall {
    ChangeCall::SetTimes {
        atime_sec: change.atime_sec,
        atime_nsec: change.atime_nsec,
        mtime_sec: change.mtime_sec,
        mtime_nsec: change.mtime_nsec,
    }
}

/// A change before its first call.
pub open spec fn not_begun(change: StatChange) -> ChangeTask {
    ChangeTask { change, progress: ChangeProgress::Mode }
}

/// The call that is due, if one is.
pub open spec fn due_call(task: ChangeTask) -> Option<ChangeCall> {
    match task.progress {
        ChangeProgress::Mode => Some(mode_call(task.change)),
        ChangeProgress::Times => Some(times_call(task.change)),
        ChangeProgress::Changed => None,
        ChangeProgress::Failed(_) => None,
    }
}

/// How far the change is once the call that was due has worked or failed.
pub open spec fn progress_after(
    progress: ChangeProgress,
    outcome: Result<(), i32>,
) -> ChangeProgress {
    match outcome {
        Ok(_) => if progress is Mode {
            ChangeProgress::Times
        } else {
            ChangeProgress::Changed
        },
        Err(e) => ChangeProgress::Failed(e),
    }
}

impl ChangeTask {
    /// A change before its first call.
    pub fn begin(change: StatChange) -> (r: ChangeTask)
        ensures
            r == not_begun(change),
    {
        ChangeTask { change, progress: ChangeProgress::Mode }
    }

    /// The call to make next; none once the change is made or has failed.
    pub fn next_call(&self) -> (r: Option<ChangeCall>)
        ensures
            r == due_call(*self),
    {
        match self.progress {
            ChangeProgress::Mode => Some(ChangeCall::SetMode { mode: self.change.mode }),
            ChangeProgress::Times => Some(
                ChangeCall::SetTimes {
                    atime_sec: self.change.atime_sec,
                    atime_nsec: self.change.atime_nsec,
                    mtime_sec: self.change.mtime_sec,
                    mtime_nsec: self.change.mtime_nsec,
                },
            ),
            _ => None,
        }
    }

    /// Takes what came of the call that was due: that it worked, or the host's error
    /// number.
    pub fn advance(&mut self, outcome: Result<(), i32>)
        requires
            due_call(*old(self)) is Some,
        ensures
            final(self).change == old(self).change,
            final(self).progress == progress_after(old(self).progress, outcome),
    {
        self.progress = match (self.progress, outcome) {
            (_, Err(e)) => ChangeProgress::Failed(e),
            (ChangeProgress::Mode, Ok(_)) => ChangeProgress::Times,
            _ => ChangeProgress::Changed,
        };
    }

    /// What came of the change, once no call is due.
    pub fn result(&self) -> (r: Result<(), i32>)
        requires
            due_call(*self) is None,
        ensures
            match r {
                Ok(_) => self.progress is Changed,
                Err(e) => self.progress == ChangeProgress::Failed(e),
            },
    {
        match self.progress {
            ChangeProgress::Failed(e) => Err(e),
            _ => Ok(()),
        }
    }
}

/// A change after a call that came to `outcome`.
pub open spec fn advanced(task: ChangeTask, outcome: Result<(), i32>) -> ChangeTask {
    ChangeTask { progress: progress_after(task.progress, outcome), ..task }
}

/// The calls that a change makes, and how far it is in the end, where the calls that
/// are made come to `outcomes`, in order.
pub open spec fn run(task: ChangeTask, outcomes: Seq<Result<(), i32>>) -> (
    Seq<ChangeCall>,
    ChangeTask,
)
    decreases outcomes.len(),
{
    match due_call(task) {
        Some(call) => if outcomes.len() == 0 {
            (Seq::empty(), task)
        } else {
            let rest = run(advanced(task, outcomes[0]), outcomes.drop_first());
            (seq![call] + rest.0, rest.1)
        },
        None => (Seq::empty(), task),
    }
}

/// A change sets the mode first. Where that fails the times are left alone, and the
/// change has failed with that error number. Where it works the times are set, the
/// last call of all: nothing is ever undone. The change is made exactly where both
/// calls have worked.
pub proof fn law_change_takes_both_calls(
    change: StatChange,
    mode: Result<(), i32>,
    times: Result<(), i32>,
)
    ensures
        ({
            let (calls, end) = run(not_begun(change), seq![mode, times]);
            let set_mode = ChangeCall::SetMode { mode: change.mode };
            let set_times = ChangeCall::SetTimes {
                atime_sec: change.atime_sec,
                atime_nsec: change.atime_nsec,
                mtime_sec: change.mtime_sec,
                mtime_nsec: change.mtime_nsec,
            };
            &&& mode matches Err(e) ==> calls == seq![set_mode] && end.progress
                == ChangeProgress::Failed(e)
            &&& mode is Ok ==> calls == seq![set_mode, set_times]
            &&& mode is Ok ==> (times matches Err(e) ==> end.progress == ChangeProgress::Failed(e))
            &&& end.progress is Changed <==> mode is Ok && times is Ok
            &&& due_call(end) is None
            &&& end.change == change
        }),
{
    reveal_with_fuel(run, 3);
    let outcomes = seq![mode, times];
    let first = advanced(not_begun(change), mode);
    let second = advanced(first, times);
    assert(outcomes.drop_first() =~= seq![times]);
    assert(seq![times].drop_first() =~= Seq::empty());
    assert(run(second, Seq::empty()) == (Seq::<ChangeCall>::empty(), second));
    if mode is Ok {
        assert(run(first, seq![times]).0 =~= seq![times_call(change)]);
        assert(run(not_begun(change), outcomes).0 =~= seq![mode_call(change), times_call(change)]);
    } else {
        assert(run(not_begun(change), outcomes).0 =~= seq![mode_call(change)]);
    }
}

} // verus!
