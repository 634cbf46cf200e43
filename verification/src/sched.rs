//! The scheduler's reference clock and per-tick decisions.
//!
//! The loop never re-reads the real clock while running: it seeds a
//! reference clock once, and after handling a wake target it advances
//! the reference clock to the minute after that target. How long to
//! block is likewise computed from the reference clock alone.

use vstd::prelude::*;
use crate::date::{DaylogDate, lemma_date_succ};
use crate::time::{DaylogTime, SecondsTime, SleepTime};

verus! {

/// Arguments of the long-running service loop.
#[derive(Debug, Clone, Copy, PartialEq, Eq, Structural)]
pub struct RunArgs {
    /// Log what would be done, but make no changes.
    pub dry_run: bool,
}

/// The scheduler's own notion of the current UTC minute.
#[derive(Debug, Clone, Copy, PartialEq, Eq, Structural)]
pub struct ReferenceClock {
    pub date: DaylogDate,
    pub time: DaylogTime,
}

impl ReferenceClock {
    pub open spec fn wf(self) -> bool {
        self.date.wf() && self.time.wf()
    }

    /// This clock reading as an absolute minute count: minutes since
    /// the start of day zero of the date numbering.
    pub open spec fn spec_abs(self) -> int {
        self.date.spec_day_number() * 1440 + self.time.spec_minutes()
    }

    /// The absolute minute a wake target denotes, read against this
    /// clock's current day.
    pub open spec fn spec_target_abs(self, target: SleepTime) -> int {
        self.date.spec_day_number() * 1440 + target.spec_minutes()
    }
}

/// The clock reading one minute after a wake target: the target's own
/// minute plus one, rolling the date over at each midnight.
pub open spec fn spec_advance(c: ReferenceClock, target: SleepTime) -> ReferenceClock {
    match target {
        SleepTime::Today(t) => {
            let t2 = t.spec_succ();
            if t2 == (DaylogTime { hour: 0, minute: 0 }) {
                ReferenceClock { date: c.date.spec_succ(), time: t2 }
            } else {
                ReferenceClock { date: c.date, time: t2 }
            }
        },
        SleepTime::Tomorrow(t) => {
            let d1 = c.date.spec_succ();
            let t2 = t.spec_succ();
            if t2 == (DaylogTime { hour: 0, minute: 0 }) {
                ReferenceClock { date: d1.spec_succ(), time: t2 }
            } else {
                ReferenceClock { date: d1, time: t2 }
            }
        },
    }
}

/// Advancing past a target lands exactly one minute after it.
pub proof fn lemma_advance_abs(c: ReferenceClock, target: SleepTime)
    requires
        c.wf(),
        target.wf(),
        c.date.year < 9999,
    ensures
        spec_advance(c, target).wf(),
        spec_advance(c, target).spec_abs() == c.spec_target_abs(target) + 1,
        spec_advance(c, target).date.year <= c.date.year + 1,
{
    lemma_date_succ(c.date);
    match target {
        SleepTime::Today(t) => {
        },
        SleepTime::Tomorrow(t) => {
            let d1 = c.date.spec_succ();
            if t.spec_succ() == (DaylogTime { hour: 0, minute: 0 }) {
                assert(!d1.is_max());
                lemma_date_succ(d1);
            }
        },
    }
}

/// Advancing past a target that is not earlier than the reference time
/// moves the clock strictly forward: minutes are never repeated.
pub proof fn lemma_advance_monotonic(c: ReferenceClock, target: SleepTime)
    requires
        c.wf(),
        target.wf(),
        c.date.year < 9999,
        target is Today ==> target.spec_time().spec_minutes() >= c.time.spec_minutes(),
    ensures
        spec_advance(c, target).spec_abs() > c.spec_abs(),
{
    lemma_advance_abs(c, target);
}

/// Advance the reference clock to the minute after the handled target.
pub fn advance_after(c: ReferenceClock, target: SleepTime) -> (r: ReferenceClock)
    requires
        c.wf(),
        target.wf(),
        c.date.year < 9999,
    ensures
        r == spec_advance(c, target),
        r.wf(),
        r.spec_abs() == c.spec_target_abs(target) + 1,
{
    proof {
        lemma_advance_abs(c, target);
    }
    match target {
        SleepTime::Today(t) => {
            let t2 = t.succ();
            if t2.hour == 0 && t2.minute == 0 {
                ReferenceClock { date: c.date.succ(), time: t2 }
            } else {
                ReferenceClock { date: c.date, time: t2 }
            }
        }
        SleepTime::Tomorrow(t) => {
            let d1 = c.date.succ();
            let t2 = t.succ();
            if t2.hour == 0 && t2.minute == 0 {
                ReferenceClock { date: d1.succ(), time: t2 }
            } else {
                ReferenceClock { date: d1, time: t2 }
            }
        }
    }
}

/// The run of a scheduler that finds a due target every minute: each
/// iteration handles `Today(now)` and advances.
pub open spec fn spec_run_due_now(c: ReferenceClock, n: nat) -> ReferenceClock
    decreases n,
{
    if n == 0 {
        c
    } else {
        spec_run_due_now(spec_advance(c, SleepTime::Today(c.time)), (n - 1) as nat)
    }
}

/// Reference-clock monotonicity: over `n` iterations that each fire at
/// the reference minute itself, the clock ends exactly `n` minutes past
/// the seed — however long each iteration's dispatch work took, since
/// the clock is advanced by construction and never re-read. (A tick
/// whose target lies later than the reference clock moves the clock to
/// that later minute instead, so the bound there is "at least one".)
pub proof fn lemma_reference_clock_monotonic(c: ReferenceClock, n: nat)
    requires
        c.wf(),
        c.date.year + n < 9999,
    ensures
        spec_run_due_now(c, n).wf(),
        spec_run_due_now(c, n).spec_abs() == c.spec_abs() + n,
    decreases n,
{
    if n > 0 {
        let c1 = spec_advance(c, SleepTime::Today(c.time));
        lemma_advance_abs(c, SleepTime::Today(c.time));
        lemma_reference_clock_monotonic(c1, (n - 1) as nat);
    }
}

/// How long to block for a wake target, from a second-resolution
/// reading of the reference day's clock: nothing when the target is
/// already past (it is due immediately), else the wait in milliseconds.
pub fn wait_millis(target: SleepTime, now: SecondsTime) -> (r: Option<i64>)
    requires
        target.wf(),
        now.wf(),
    ensures
        ({
            let secs = target.spec_minutes() * 60 - now.secs;
            if secs < 0 {
                r is None
            } else {
                r matches Some(ms) && ms == secs * 1000
            }
        }),
{
    let secs = target.duration_from(now);
    if secs < 0 {
        None
    } else {
        Some(secs * 1000)
    }
}

} // verus!
