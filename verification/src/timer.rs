//! An interval timer that gates work which should not run on every frame.

use vstd::prelude::*;

verus! {

/// Sum of two time spans, held at the largest span the counter can store.
pub open spec fn span_sum(a: u128, b: u128) -> u128 {
    if a + b <= u128::MAX {
        (a + b) as u128
    } else {
        u128::MAX
    }
}

/// Accumulates elapsed time, counted in nanoseconds, and reports when an
/// interval has passed.
///
/// `done` turns true when the accumulated time reaches the interval and stays
/// true, overshoot included, until `restart`.
#[derive(Clone, Copy, Debug, PartialEq, Eq, Structural)]
pub struct Timer {
    pub interval: u128,
    pub accumulated: u128,
    pub done: bool,
}

impl Timer {
    /// The timer after `elapsed` more nanoseconds: they are added to the
    /// accumulated time, and the timer is done if it was before or if the
    /// accumulated time has reached the interval.
    pub open spec fn updated(self, elapsed: u128) -> Timer {
        let accumulated = span_sum(self.accumulated, elapsed);
        Timer {
            interval: self.interval,
            accumulated,
            done: self.done || accumulated >= self.interval,
        }
    }

    /// The timer at the start of its next interval: no time accumulated, not
    /// done.
    pub open spec fn restarted(self) -> Timer {
        Timer { interval: self.interval, accumulated: 0, done: false }
    }

    /// The timer marked done, with its accumulated time as it is.
    pub open spec fn forced(self) -> Timer {
        Timer { interval: self.interval, accumulated: self.accumulated, done: true }
    }

    /// A timer that has seen no time pass yet.
    pub fn new(interval: u128) -> (t: Timer)
        ensures
            t == (Timer { interval, accumulated: 0, done: false }),
    {
        Timer { interval, accumulated: 0, done: false }
    }

    /// Counts `elapsed` more nanoseconds.
    pub fn update(&mut self, elapsed: u128)
        ensures
            *final(self) == old(self).updated(elapsed),
    {
        self.accumulated = self.accumulated.saturating_add(elapsed);
        if self.accumulated >= self.interval {
            self.done = true;
        }
    }

    /// Starts the next interval.
    pub fn restart(&mut self)
        ensures
            *final(self) == old(self).restarted(),
    {
        self.accumulated = 0;
        self.done = false;
    }

    /// Marks the timer done whatever time has accumulated.
    pub fn force(&mut self)
        ensures
            *final(self) == old(self).forced(),
    {
        self.done = true;
    }
}

/// An update makes a timer that was not done done exactly when the time
/// accumulated before and the elapsed time together reach the interval.
pub proof fn lemma_done_when_interval_reached(timer: Timer, elapsed: u128)
    requires
        !timer.done,
    ensures
        timer.updated(elapsed).done <==> timer.accumulated + elapsed >= timer.interval,
{
}

/// It makes no difference to a timer whether a span of time reaches it in
/// one update or in two.
pub proof fn lemma_update_splits(timer: Timer, first: u128, second: u128)
    requires
        first + second <= u128::MAX,
    ensures
        timer.updated(first).updated(second) == timer.updated((first + second) as u128),
{
}

/// Once done, a timer stays done through every update, and forcing a timer
/// that is done changes nothing.
pub proof fn lemma_done_until_restart(timer: Timer, elapsed: u128)
    requires
        timer.done,
    ensures
        timer.updated(elapsed).done,
        timer.forced() == timer,
        !timer.restarted().done,
{
}

} // verus!
