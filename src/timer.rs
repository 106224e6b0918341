use vstd::prelude::*;

verus! {

/// Nanoseconds in one second.
pub const NANOS_PER_SEC: u64 = 1_000_000_000;

/// A pausable stopwatch for the match clock.
///
/// Instants are nanoseconds read from one monotonic clock; every method that
/// needs the current instant takes it as `now`. The timer measures the time
/// that passed while it was running since it was last reset.
#[derive(Clone, Copy, Debug, PartialEq, Eq, Structural)]
pub struct MatchTimer {
    pub accumulated: u64,
    pub running: bool,
    pub last_start: Option<u64>,
}

/// `a + b`, held at `u64::MAX`.
pub open spec fn sat_add(a: int, b: int) -> int {
    if a + b > u64::MAX {
        u64::MAX as int
    } else {
        a + b
    }
}

/// `a - b`, held at zero.
pub open spec fn sat_sub(a: int, b: int) -> int {
    if a >= b {
        a - b
    } else {
        0
    }
}

impl MatchTimer {
    /// Running exactly when an instant of the last resume is kept.
    pub open spec fn wf(self) -> bool {
        self.running == self.last_start.is_some()
    }

    /// The elapsed time at instant `now`.
    pub open spec fn elapsed_at(self, now: int) -> int {
        match self.last_start {
            Some(since) if self.running => sat_add(self.accumulated as int, sat_sub(now, since as int)),
            _ => self.accumulated as int,
        }
    }

    /// A stopped timer at zero.
    pub open spec fn zero() -> MatchTimer {
        MatchTimer { accumulated: 0, running: false, last_start: None }
    }

    /// The timer after a start at `now`: unchanged while it runs.
    pub open spec fn started(self, now: int) -> MatchTimer {
        if self.running {
            self
        } else {
            MatchTimer { accumulated: self.accumulated, running: true, last_start: Some(now as u64) }
        }
    }

    /// The timer after a pause at `now`: unchanged while it is paused.
    pub open spec fn paused(self, now: int) -> MatchTimer {
        if self.running {
            MatchTimer { accumulated: self.elapsed_at(now) as u64, running: false, last_start: None }
        } else {
            self
        }
    }

    /// A stopped timer at zero.
    pub fn new() -> (r: Self)
        ensures
            r.wf(),
            r.accumulated == 0,
            !r.running,
            r.last_start.is_none(),
            r == MatchTimer::zero(),
    {
        MatchTimer { accumulated: 0, running: false, last_start: None }
    }

    /// Starts (or resumes) the timer at `now`; does nothing while it runs.
    pub fn start(&mut self, now: u64)
        requires
            old(self).wf(),
        ensures
            final(self).wf(),
            final(self).running,
            *final(self) == old(self).started(now as int),
    {
        if !self.running {
            self.running = true;
            self.last_start = Some(now);
        }
    }

    /// Pauses the timer at `now`, folding the running time into the total;
    /// does nothing while it is paused.
    pub fn pause(&mut self, now: u64)
        requires
            old(self).wf(),
        ensures
            final(self).wf(),
            !final(self).running,
            final(self).accumulated == old(self).elapsed_at(now as int),
            *final(self) == old(self).paused(now as int),
            forall|s: u64|
                old(self).last_start == Some(s) && s <= now && old(self).accumulated + (now - s) <= u64::MAX
                    ==> final(self).accumulated == old(self).accumulated + (now - s),
    {
        if self.running {
            if let Some(since) = self.last_start {
                let delta = now.saturating_sub(since);
                self.accumulated = self.accumulated.saturating_add(delta);
            }
            self.running = false;
            self.last_start = None;
        }
    }

    /// Stops the timer and sets it back to zero.
    pub fn reset(&mut self)
        ensures
            final(self).wf(),
            final(self).accumulated == 0,
            !final(self).running,
            *final(self) == MatchTimer::zero(),
    {
        self.accumulated = 0;
        self.running = false;
        self.last_start = None;
    }

    /// The time measured at `now`, in nanoseconds.
    pub fn elapsed(&self, now: u64) -> (r: u64)
        ensures
            r == self.elapsed_at(now as int),
            !self.running ==> r == self.accumulated,
            forall|s: u64|
                self.running && self.last_start == Some(s) && s <= now && self.accumulated + (now - s) <= u64::MAX
                    ==> r == self.accumulated + (now - s),
    {
        if self.running {
            if let Some(since) = self.last_start {
                return self.accumulated.saturating_add(now.saturating_sub(since));
            }
        }
        self.accumulated
    }

    /// The time measured at `now`, in whole seconds.
    pub fn elapsed_secs(&self, now: u64) -> (r: u64)
        ensures
            r == self.elapsed_at(now as int) / NANOS_PER_SEC as int,
    {
        self.elapsed(now) / NANOS_PER_SEC
    }
}

/// An operation on the match clock.
#[derive(Clone, Copy, Debug, PartialEq, Eq, Structural)]
pub enum TimerOp {
    /// Start, or resume after a pause.
    Start,
    Pause,
    Reset,
}

/// The timer after applying `op` at instant `at`.
pub open spec fn apply_op(t: MatchTimer, op: TimerOp, at: int) -> MatchTimer {
    match op {
        TimerOp::Start => t.started(at),
        TimerOp::Pause => t.paused(at),
        TimerOp::Reset => MatchTimer::zero(),
    }
}

/// A new timer after the timed operations `ops`, in order.
pub open spec fn apply_ops(ops: Seq<(TimerOp, u64)>) -> MatchTimer
    decreases ops.len(),
{
    if ops.len() == 0 {
        MatchTimer::zero()
    } else {
        apply_op(apply_ops(ops.drop_last()), ops.last().0, ops.last().1 as int)
    }
}

/// Whether the clock runs after `ops`: the latest operation was a start.
pub open spec fn runs_after(ops: Seq<(TimerOp, u64)>) -> bool {
    ops.len() > 0 && ops.last().0 == TimerOp::Start
}

/// The wall-clock time up to `now` during which the clock ran, since the
/// latest reset.
pub open spec fn running_time(ops: Seq<(TimerOp, u64)>, now: int) -> int
    decreases ops.len(),
{
    if ops.len() == 0 {
        0
    } else {
        let at = ops.last().1 as int;
        match ops.last().0 {
            TimerOp::Reset => 0,
            TimerOp::Pause => running_time(ops.drop_last(), at),
            TimerOp::Start => running_time(ops.drop_last(), at) + (now - at),
        }
    }
}

/// Instants of `ops` never go back, and none is after `now`.
pub open spec fn ordered_until(ops: Seq<(TimerOp, u64)>, now: int) -> bool {
    &&& forall|i: int, j: int| 0 <= i <= j < ops.len() ==> ops[i].1 <= ops[j].1
    &&& forall|i: int| 0 <= i < ops.len() ==> ops[i].1 <= now
}

/// The time on the clock without the bound of `u64`.
pub open spec fn raw_elapsed(t: MatchTimer, now: int) -> int {
    match t.last_start {
        Some(since) if t.running => t.accumulated + (now - since),
        _ => t.accumulated as int,
    }
}

proof fn lemma_running_time(ops: Seq<(TimerOp, u64)>, now: int)
    requires
        ordered_until(ops, now),
        0 <= now <= u64::MAX,
    ensures
        apply_ops(ops).wf(),
        apply_ops(ops).running == runs_after(ops),
        raw_elapsed(apply_ops(ops), now) == running_time(ops, now),
        0 <= running_time(ops, now) <= now,
        forall|s: u64| apply_ops(ops).last_start == Some(s) ==> s <= now,
    decreases ops.len(),
{
    if ops.len() > 0 {
        let pre = ops.drop_last();
        let at = ops.last().1 as int;
        assert(ops.last() == ops[ops.len() - 1]);
        assert(at <= now);
        assert forall|i: int, j: int| 0 <= i <= j < pre.len() implies pre[i].1 <= pre[j].1 by {
            assert(pre[i] == ops[i] && pre[j] == ops[j]);
        }
        assert forall|i: int| 0 <= i < pre.len() implies pre[i].1 <= at by {
            assert(pre[i] == ops[i]);
        }
        lemma_running_time(pre, at);
    }
}

/// The match clock shows exactly the wall-clock time during which it ran
/// since its latest reset, whatever sequence of starts, resumes, pauses and
/// resets it went through; a start while running or a pause while paused
/// changes nothing.
pub proof fn lemma_elapsed_is_running_time(ops: Seq<(TimerOp, u64)>, now: u64)
    requires
        ordered_until(ops, now as int),
    ensures
        apply_ops(ops).elapsed_at(now as int) == running_time(ops, now as int),
        forall|t: u64| apply_ops(ops).running ==> apply_op(apply_ops(ops), TimerOp::Start, t as int) == apply_ops(ops),
        forall|t: u64| !apply_ops(ops).running ==> apply_op(apply_ops(ops), TimerOp::Pause, t as int) == apply_ops(ops),
{
    lemma_running_time(ops, now as int);
}

} // verus!
