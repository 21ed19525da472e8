//! Tells active from idle: a user is active until `timeout` seconds have passed
//! since the last observed input, and idle from then on until new input arrives.

use vstd::prelude::*;
use crate::time::capped;

verus! {

#[derive(PartialEq, Eq, Structural, Clone, Copy, Debug)]
pub enum UserState {
    Idle,
    Active,
}

/// What an activity tracker holds. Times are milliseconds; the timeout is in seconds.
pub struct ActivityView {
    pub state: UserState,
    pub last_activity_at: u64,
    pub timeout_secs: u64,
}

impl ActivityView {
    /// The time from which an active user counts as idle.
    pub open spec fn idle_deadline(self) -> int {
        self.last_activity_at + self.timeout_secs * 1000
    }

    /// Input observed at `t`: the user is active, counting from `t`.
    pub open spec fn touched(self, t: u64) -> ActivityView {
        ActivityView { state: UserState::Active, last_activity_at: t, timeout_secs: self.timeout_secs }
    }

    /// The check made at `now`: an active user whose deadline has come turns
    /// idle; an idle user stays idle.
    pub open spec fn evaluated(self, now: u64) -> ActivityView {
        if self.state == UserState::Active && now >= self.idle_deadline() {
            ActivityView { state: UserState::Idle, ..self }
        } else {
            self
        }
    }

    /// While active and before the deadline: how long until the deadline.
    pub open spec fn wake_hint(self, now: u64) -> Option<u64> {
        if self.state == UserState::Active && now < self.idle_deadline() {
            Some(capped(self.idle_deadline() - now))
        } else {
            None
        }
    }
}

/// With a timeout of `timeout_secs` seconds and the last input at `t0`, an active
/// user is still active at every `now` before `t0` plus the timeout, and idle at
/// every `now` from that time on.
pub proof fn lemma_idle_boundary(t0: u64, timeout_secs: u64, now: u64)
    ensures
        ({
            let a = ActivityView { state: UserState::Active, last_activity_at: t0, timeout_secs };
            &&& a.evaluated(now).state == UserState::Active <==> now < t0 + timeout_secs * 1000
            &&& a.evaluated(now).state == UserState::Idle <==> now >= t0 + timeout_secs * 1000
        }),
{
}

pub struct ActivityTracker {
    state: UserState,
    last_activity_at: u64,
    timeout_secs: u64,
}

impl View for ActivityTracker {
    type V = ActivityView;

    closed spec fn view(&self) -> ActivityView {
        ActivityView {
            state: self.state,
            last_activity_at: self.last_activity_at,
            timeout_secs: self.timeout_secs,
        }
    }
}

impl ActivityTracker {
    /// An active user, last seen at `now`.
    pub fn new(timeout_secs: u64, now: u64) -> (r: ActivityTracker)
        ensures
            r@ == (ActivityView { state: UserState::Active, last_activity_at: now, timeout_secs }),
    {
        ActivityTracker { state: UserState::Active, last_activity_at: now, timeout_secs }
    }

    pub fn state(&self) -> (r: UserState)
        ensures
            r == self@.state,
    {
        self.state
    }

    pub fn last_activity_at(&self) -> (r: u64)
        ensures
            r == self@.last_activity_at,
    {
        self.last_activity_at
    }

    pub fn timeout_secs(&self) -> (r: u64)
        ensures
            r == self@.timeout_secs,
    {
        self.timeout_secs
    }

    /// Records input observed at `t`.
    pub fn touch(&mut self, t: u64)
        ensures
            final(self)@ == old(self)@.touched(t),
    {
        self.state = UserState::Active;
        self.last_activity_at = t;
    }

    fn deadline(&self) -> (r: u128)
        ensures
            r == self@.idle_deadline(),
    {
        self.last_activity_at as u128 + self.timeout_secs as u128 * 1000
    }

    /// The check at `now`; tells whether the user has just turned idle.
    pub fn evaluate(&mut self, now: u64) -> (went_idle: bool)
        ensures
            final(self)@ == old(self)@.evaluated(now),
            went_idle == (old(self)@.state == UserState::Active && final(self)@.state
                == UserState::Idle),
    {
        if self.state == UserState::Active && now as u128 >= self.deadline() {
            self.state = UserState::Idle;
            true
        } else {
            false
        }
    }

    /// How long the caller may wait before the next check, while the user is active.
    pub fn wake_hint(&self, now: u64) -> (r: Option<u64>)
        ensures
            r == self@.wake_hint(now),
    {
        let deadline = self.deadline();
        if self.state == UserState::Active && (now as u128) < deadline {
            let remaining = deadline - now as u128;
            if remaining <= u64::MAX as u128 {
                Some(remaining as u64)
            } else {
                Some(u64::MAX)
            }
        } else {
            None
        }
    }
}

} // verus!
