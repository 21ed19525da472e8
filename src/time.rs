//! A stopwatch that accumulates running time across start/stop cycles.
//!
//! Times are milliseconds on a clock that the caller reads and hands in; a time
//! earlier than the start of the current run counts as no time at all.

use vstd::prelude::*;

verus! {

/// What a stopwatch holds: when the current run began, if one is going on, and
/// the time banked by the runs that have ended.
pub struct StopWatchView {
    pub running_since: Option<u64>,
    pub accumulated: u64,
}

/// The length of the interval from `from` to `to`, or zero if the clock went back.
pub open spec fn span(from: u64, to: u64) -> nat {
    if to >= from {
        (to - from) as nat
    } else {
        0
    }
}

/// `x` (never negative where it is used), or the largest `u64` where `x` does not fit.
pub open spec fn capped(x: int) -> u64 {
    if x <= u64::MAX {
        x as u64
    } else {
        u64::MAX
    }
}

impl StopWatchView {
    pub open spec fn zero() -> StopWatchView {
        StopWatchView { running_since: None, accumulated: 0 }
    }

    pub open spec fn is_running(self) -> bool {
        self.running_since is Some
    }

    /// A run begins at `now`, unless one is already going on.
    pub open spec fn started(self, now: u64) -> StopWatchView {
        if self.is_running() {
            self
        } else {
            StopWatchView { running_since: Some(now), accumulated: self.accumulated }
        }
    }

    /// The current run, if any, ends at `now` and its length is banked.
    pub open spec fn stopped(self, now: u64) -> StopWatchView {
        match self.running_since {
            Some(since) => StopWatchView {
                running_since: None,
                accumulated: capped(self.accumulated + span(since, now)),
            },
            None => self,
        }
    }

    /// The banked time plus the length of the current run up to `now`.
    pub open spec fn elapsed_at(self, now: u64) -> u64 {
        match self.running_since {
            Some(since) => capped(self.accumulated + span(since, now)),
            None => self.accumulated,
        }
    }
}

/// A start or a stop of a stopwatch, with the time at which it happened; the
/// laws below speak of sequences of them.
pub enum Toggle {
    Start(u64),
    Stop(u64),
}

impl Toggle {
    pub open spec fn at(self) -> u64 {
        match self {
            Toggle::Start(t) => t,
            Toggle::Stop(t) => t,
        }
    }
}

pub open spec fn applied(v: StopWatchView, op: Toggle) -> StopWatchView {
    match op {
        Toggle::Start(t) => v.started(t),
        Toggle::Stop(t) => v.stopped(t),
    }
}

/// The state of a new stopwatch after the toggles `ops`, in order.
pub open spec fn replay(ops: Seq<Toggle>) -> StopWatchView
    decreases ops.len(),
{
    if ops.len() == 0 {
        StopWatchView::zero()
    } else {
        applied(replay(ops.drop_last()), ops.last())
    }
}

pub open spec fn in_time_order(ops: Seq<Toggle>) -> bool {
    forall|i: int, j: int| 0 <= i <= j < ops.len() ==> #[trigger] ops[i].at() <= #[trigger] ops[j].at()
}

/// How long the watch has run by `now`: a start makes it run until the next
/// toggle (or until `now`, if it is the last one), a stop makes it rest.
pub open spec fn running_time(ops: Seq<Toggle>, now: u64) -> nat
    decreases ops.len(),
{
    if ops.len() == 0 {
        0
    } else {
        let last = ops.last();
        running_time(ops.drop_last(), last.at()) + if last is Start {
            span(last.at(), now)
        } else {
            0nat
        }
    }
}

proof fn lemma_replay_tracks_running_time(ops: Seq<Toggle>, now: u64)
    requires
        in_time_order(ops),
        ops.len() > 0 ==> ops.last().at() <= now,
        running_time(ops, now) <= u64::MAX,
    ensures
        replay(ops).elapsed_at(now) == running_time(ops, now),
        replay(ops).running_since matches Some(s) ==> s <= now,
    decreases ops.len(),
{
    if ops.len() > 0 {
        let prev = ops.drop_last();
        let t = ops.last().at();
        if prev.len() > 0 {
            assert(prev.last() == ops[prev.len() - 1]);
            assert(ops[prev.len() - 1].at() <= ops[ops.len() - 1].at());
        }
        assert(in_time_order(prev)) by {
            assert forall|i: int, j: int| 0 <= i <= j < prev.len() implies #[trigger] prev[i].at()
                <= #[trigger] prev[j].at() by {
                assert(prev[i] == ops[i] && prev[j] == ops[j]);
                assert(ops[i].at() <= ops[j].at());
            }
        }
        lemma_replay_tracks_running_time(prev, t);
    }
}

/// For starts and stops in time order, read at a time no earlier than the last
/// of them, a new stopwatch reads the sum of the intervals from each start to
/// the next toggle (or to the reading time, while it still runs). Where that
/// sum does not fit in a `u64` the reading stops at the largest `u64`, so those
/// inputs are left out.
pub proof fn lemma_elapsed_sums_runs(ops: Seq<Toggle>, now: u64)
    requires
        in_time_order(ops),
        ops.len() > 0 ==> ops.last().at() <= now,
        running_time(ops, now) <= u64::MAX,
    ensures
        replay(ops).elapsed_at(now) == running_time(ops, now),
        running_time(ops, now) >= 0,
{
    lemma_replay_tracks_running_time(ops, now);
}

/// A second start right after a start changes nothing, and a second stop right
/// after a stop changes nothing: the readings that follow are those of a
/// single call.
pub proof fn lemma_repeat_is_harmless(v: StopWatchView, t1: u64, t2: u64, now: u64)
    ensures
        v.started(t1).started(t2) == v.started(t1),
        v.started(t1).started(t2).elapsed_at(now) == v.started(t1).elapsed_at(now),
        v.stopped(t1).stopped(t2) == v.stopped(t1),
        v.stopped(t1).stopped(t2).elapsed_at(now) == v.stopped(t1).elapsed_at(now),
{
}

/// After a reset the stopwatch reads zero at any time, and a start at `t`
/// counts from zero: at `now` it reads `now - t`.
pub proof fn lemma_reset_counts_from_zero(t: u64, now: u64)
    requires
        t <= now,
    ensures
        StopWatchView::zero().elapsed_at(now) == 0,
        StopWatchView::zero().started(t).elapsed_at(now) == now - t,
{
}

pub struct StopWatch {
    start: Option<u64>,
    elapsed: u64,
}

impl View for StopWatch {
    type V = StopWatchView;

    closed spec fn view(&self) -> StopWatchView {
        StopWatchView { running_since: self.start, accumulated: self.elapsed }
    }
}

impl StopWatch {
    /// A stopped stopwatch with nothing banked.
    pub fn new() -> (r: StopWatch)
        ensures
            r@ == StopWatchView::zero(),
    {
        StopWatch { start: None, elapsed: 0 }
    }

    /// Starts a run at `now`; does nothing while a run is going on.
    pub fn start(&mut self, now: u64)
        ensures
            final(self)@ == old(self)@.started(now),
    {
        if self.start.is_none() {
            self.start = Some(now);
        }
    }

    /// Ends the current run at `now` and banks its length; does nothing while stopped.
    pub fn stop(&mut self, now: u64)
        ensures
            final(self)@ == old(self)@.stopped(now),
    {
        if let Some(since) = self.start {
            self.elapsed = self.elapsed.saturating_add(now.saturating_sub(since));
            self.start = None;
        }
    }

    /// Forgets the banked time and any run going on.
    pub fn reset(&mut self)
        ensures
            final(self)@ == StopWatchView::zero(),
    {
        self.start = None;
        self.elapsed = 0;
    }

    /// The running time up to `now`; reading it changes nothing.
    pub fn elapsed(&self, now: u64) -> (r: u64)
        ensures
            r == self@.elapsed_at(now),
    {
        match self.start {
            Some(since) => self.elapsed.saturating_add(now.saturating_sub(since)),
            None => self.elapsed,
        }
    }

    pub fn is_running(&self) -> (r: bool)
        ensures
            r == self@.is_running(),
    {
        self.start.is_some()
    }
}

} // verus!
