//! The deadline of a worker: a time budget that is compared with the clock
//! only every few calls, so that reading the clock costs little.

use vstd::prelude::*;
use std::time::{Duration, Instant};

verus! {

/// `std::time::Instant`, a reading of the clock. Nothing is known of what is
/// inside.
#[verifier::external_type_specification]
#[verifier::external_body]
pub struct ExInstant(std::time::Instant);

/// `std::time::Instant::now` reads the clock. Nothing is claimed of the
/// instant that comes back.
pub assume_specification[ std::time::Instant::now ]() -> Instant;

/// `std::time::Instant::elapsed` gives the time that has passed since the
/// instant was taken. Nothing is claimed of the duration that comes back.
pub assume_specification[ std::time::Instant::elapsed ](start: &Instant) -> Duration;

/// `std::time::Duration::as_nanos` gives a duration as a number of
/// nanoseconds. Nothing is claimed of the number that comes back.
pub assume_specification[ std::time::Duration::as_nanos ](duration: &Duration) -> u128;

/// The threshold that follows `frequency` once the clock has been read:
/// twice of it where less than `interval` has passed since the clock was
/// last read, and half of it, but at least 1, where `interval` or more has
/// passed. A threshold whose double would not fit `u32` stays as it is.
pub open spec fn retuned(frequency: u32, since_last: u128, interval: u128) -> u32 {
    if since_last < interval {
        if 2 * frequency <= u32::MAX {
            (2 * frequency) as u32
        } else {
            frequency
        }
    } else if frequency / 2 >= 1 {
        frequency / 2
    } else {
        1
    }
}

/// The threshold and the counter of a timer.
pub struct Cadence {
    /// The number of calls after which the clock is read.
    pub frequency: u32,
    /// The number of calls made since the clock was last read.
    pub current: u32,
}

/// One reading of the clock, in nanoseconds.
pub struct Reading {
    /// The time since the clock was last read.
    pub since_last: u128,
    /// The time since the budget began.
    pub since_start: u128,
}

impl Cadence {
    /// The threshold is at least 1, and no more calls were counted than the
    /// threshold allows.
    pub open spec fn wf(self) -> bool {
        &&& 1 <= self.frequency
        &&& self.current <= self.frequency
    }

    /// The next call reads the clock.
    pub open spec fn due(self) -> bool {
        self.current >= self.frequency
    }

    /// What a call answers that finds `since_start` nanoseconds gone of a
    /// budget of `budget`: `true` where it reads the clock and the budget is
    /// spent.
    pub open spec fn expired(self, since_start: u128, budget: u128) -> bool {
        self.due() && since_start > budget
    }

    /// The threshold and the counter after one call. A call that is due
    /// starts the count again and adapts the threshold; any other counts
    /// itself.
    pub open spec fn after_call(self, since_last: u128, interval: u128) -> Cadence {
        if self.due() {
            Cadence { frequency: retuned(self.frequency, since_last, interval), current: 0 }
        } else {
            Cadence { frequency: self.frequency, current: (self.current + 1) as u32 }
        }
    }

    /// The threshold and the counter after the first `n` of the calls that
    /// find the given readings.
    pub open spec fn after_calls(self, readings: Seq<Reading>, n: int, interval: u128) -> Cadence
        decreases n,
    {
        if n <= 0 {
            self
        } else {
            self.after_calls(readings, n - 1, interval).after_call(
                readings[n - 1].since_last,
                interval,
            )
        }
    }

    /// What call `n` of a run of calls answers, counted from zero.
    pub open spec fn answer(self, readings: Seq<Reading>, n: int, interval: u128, budget: u128) -> bool {
        self.after_calls(readings, n, interval).expired(readings[n].since_start, budget)
    }
}

/// Every state that a run of calls passes through is well formed.
pub proof fn lemma_calls_keep_wf(start: Cadence, readings: Seq<Reading>, n: int, interval: u128)
    requires
        start.wf(),
    ensures
        start.after_calls(readings, n, interval).wf(),
    decreases n,
{
    if n > 0 {
        lemma_calls_keep_wf(start, readings, n - 1, interval);
    }
}

/// No call answers `true` while the budget is not spent.
pub proof fn lemma_false_within_budget(
    start: Cadence,
    readings: Seq<Reading>,
    n: int,
    interval: u128,
    budget: u128,
)
    requires
        readings[n].since_start <= budget,
    ensures
        !start.answer(readings, n, interval, budget),
{
}

/// Once the budget is spent, the first call that reads the clock answers
/// `true`: that is the call after `frequency - current` calls, all of which
/// answer `false`.
pub proof fn lemma_true_at_first_reading(
    start: Cadence,
    readings: Seq<Reading>,
    interval: u128,
    budget: u128,
)
    requires
        start.wf(),
        readings[start.frequency - start.current].since_start > budget,
    ensures
        start.answer(readings, start.frequency - start.current, interval, budget),
        forall|n: int|
            0 <= n < start.frequency - start.current ==> !#[trigger] start.answer(
                readings,
                n,
                interval,
                budget,
            ),
{
    assert forall|n: int| 0 <= n <= start.frequency - start.current implies (#[trigger] start.after_calls(
        readings,
        n,
        interval,
    )) == (Cadence { frequency: start.frequency, current: (start.current + n) as u32 }) by {
        lemma_idle_calls(start, readings, n, interval);
    }
}

/// Calls that are not due count themselves and leave the threshold alone.
proof fn lemma_idle_calls(start: Cadence, readings: Seq<Reading>, n: int, interval: u128)
    requires
        start.wf(),
        0 <= n <= start.frequency - start.current,
    ensures
        start.after_calls(readings, n, interval) == (Cadence {
            frequency: start.frequency,
            current: (start.current + n) as u32,
        }),
    decreases n,
{
    if n > 0 {
        lemma_idle_calls(start, readings, n - 1, interval);
    }
}

/// A time budget that started at some instant, with a counter of the calls
/// made since the clock was last read and the threshold at which it is read
/// again.
pub struct Timer {
    start: Instant,
    total: u128,
    last_check: Instant,
    check_difference: u128,
    frequency: u32,
    current: u32,
}

impl Timer {
    /// The budget in nanoseconds.
    pub closed spec fn budget(&self) -> u128 {
        self.total
    }

    /// The time that should pass between two readings of the clock, in
    /// nanoseconds.
    pub closed spec fn interval(&self) -> u128 {
        self.check_difference
    }

    /// The instant at which the budget began.
    pub closed spec fn started(&self) -> Instant {
        self.start
    }

    /// The instant at which the clock was last read.
    pub closed spec fn last_read(&self) -> Instant {
        self.last_check
    }

    /// The number of calls after which the clock is read.
    pub closed spec fn spec_frequency(&self) -> u32 {
        self.frequency
    }

    /// The number of calls made since the clock was last read.
    pub closed spec fn spec_current(&self) -> u32 {
        self.current
    }

    /// The threshold is at least 1, and no more calls were counted than the
    /// threshold allows.
    pub open spec fn wf(&self) -> bool {
        self.cadence().wf()
    }

    /// The threshold and the counter.
    pub open spec fn cadence(&self) -> Cadence {
        Cadence { frequency: self.frequency(), current: self.current() }
    }

    /// The next call reads the clock.
    pub open spec fn due(&self) -> bool {
        self.cadence().due()
    }

    /// A timer for a budget of `total` nanoseconds that began at `start`,
    /// which aims at one reading of the clock every `check_difference`
    /// nanoseconds.
    pub fn new(start: Instant, total: u128, check_difference: u128) -> (r: Timer)
        ensures
            r.wf(),
            r.started() == start,
            r.budget() == total,
            r.interval() == check_difference,
            r.frequency() == 1,
            r.current() == 0,
    {
        Timer { start, total, last_check: Instant::now(), check_difference, frequency: 1, current: 0 }
    }

    /// The number of calls after which the clock is read.
    #[verifier::when_used_as_spec(spec_frequency)]
    pub fn frequency(&self) -> (r: u32)
        ensures
            r == self.frequency(),
    {
        self.frequency
    }

    /// The number of calls made since the clock was last read.
    #[verifier::when_used_as_spec(spec_current)]
    pub fn current(&self) -> (r: u32)
        ensures
            r == self.current(),
    {
        self.current
    }

    /// One call of the deadline check, for given readings of the clock:
    /// `since_last` nanoseconds since the clock was last read, `since_start`
    /// since the budget began. A call that is not due only counts itself and
    /// answers `false`, whatever the readings. A call that is due starts the
    /// count again, adapts the threshold and says whether the budget is spent.
    /// The two instants that the timer holds stay as they are.
    pub fn check_at(&mut self, since_last: u128, since_start: u128) -> (expired: bool)
        requires
            old(self).wf(),
        ensures
            final(self).wf(),
            final(self).started() == old(self).started(),
            final(self).last_read() == old(self).last_read(),
            final(self).budget() == old(self).budget(),
            final(self).interval() == old(self).interval(),
            expired == old(self).cadence().expired(since_start, old(self).budget()),
            final(self).cadence() == old(self).cadence().after_call(since_last, old(self).interval()),
            since_start <= old(self).budget() ==> !expired,
            old(self).due() ==> expired == (since_start > old(self).budget()),
    {
        if self.current >= self.frequency {
            self.current = 0;
            if since_last < self.check_difference {
                if self.frequency <= u32::MAX / 2 {
                    self.frequency = 2 * self.frequency;
                }
            } else if self.frequency / 2 >= 1 {
                self.frequency = self.frequency / 2;
            } else {
                self.frequency = 1;
            }
            since_start > self.total
        } else {
            self.current = self.current + 1;
            false
        }
    }

    /// The deadline check of a worker's loop. The clock is read only by a
    /// call that is due, which also takes the instant of its reading for the
    /// last one; every other call answers `false` and leaves the last
    /// reading alone. The start of the budget never moves.
    pub fn check(&mut self) -> (expired: bool)
        requires
            old(self).wf(),
        ensures
            final(self).wf(),
            final(self).started() == old(self).started(),
            final(self).budget() == old(self).budget(),
            final(self).interval() == old(self).interval(),
            !old(self).due() ==> !expired && final(self).last_read() == old(self).last_read(),
            exists|since_last: u128|
                final(self).cadence() == #[trigger] old(self).cadence().after_call(
                    since_last,
                    old(self).interval(),
                ),
    {
        if self.current >= self.frequency {
            let since_last: u128 = self.last_check.elapsed().as_nanos();
            self.last_check = Instant::now();
            let since_start: u128 = self.start.elapsed().as_nanos();
            self.check_at(since_last, since_start)
        } else {
            self.check_at(0, 0)
        }
    }
}

} // verus!
