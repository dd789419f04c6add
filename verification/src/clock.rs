//! What time it is, and how long to wait.

use vstd::prelude::*;

use crate::timestamp::{TimeView, Timestamp};

verus! {

/// A source of the time of day. Another one can be put in its place in tests.
pub trait Clock: Send + Sync + 'static {
    /// The time of day.
    fn now(&self) -> Timestamp;
}

/// The clock of the system.
#[derive(Debug, Clone, Default)]
pub struct SystemClock;

impl Clock for SystemClock {
    fn now(&self) -> (r: Timestamp)
        ensures
            r@.valid(),
            0 <= r@.secs,
            r@.nanos < crate::timestamp::NANOS_PER_SEC,
    {
        crate::timestamp::utc_now()
    }
}

/// How long a loop without anything to wait for sleeps, in milliseconds.
pub const IDLE_MILLIS: u64 = 100;

/// The milliseconds to sleep until the next deadline: none once it has passed, and the
/// idle interval if there is no deadline.
pub open spec fn sleep_millis(next_at: Option<TimeView>, now: TimeView) -> nat {
    match next_at {
        None => IDLE_MILLIS as nat,
        Some(t) => t.millis_since(now),
    }
}

/// The milliseconds to sleep until the next deadline.
pub fn sleep_duration_until(next_at: Option<Timestamp>, now: Timestamp) -> (r: u64)
    ensures
        r == sleep_millis(next_at.deep_view(), now@),
{
    match next_at {
        None => IDLE_MILLIS,
        Some(t) => t.millis_since(&now),
    }
}

/// No sleep lasts beyond the deadline, and after one that lasts until the deadline less
/// than a millisecond is left.
pub proof fn sleep_ends_at_the_deadline(at: TimeView, now: TimeView)
    requires
        at.nanos_since(now) >= 0,
    ensures
        sleep_millis(Some(at), now) * 1_000_000 <= at.nanos_since(now) < (sleep_millis(
            Some(at),
            now,
        ) + 1) * 1_000_000,
{
}

} // verus!
