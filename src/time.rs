use vstd::prelude::*;

verus! {

pub const SECS_PER_DAY: i64 = 86400;

/// How long an invite token stays redeemable.
pub const INVITE_TTL_DAYS: i64 = 30;

/// How long a posted house event is kept.
pub const EVENT_RETENTION_DAYS: i64 = 30;

/// An upper bound on the seconds of any instant the clock can report.
pub const MAX_CLOCK_SECS: i64 = 10_000_000_000_000;

/// An instant: whole seconds since the Unix epoch, and nanoseconds past that second
/// (above 999,999,999 only during a leap second).
#[derive(Clone, Copy, Debug, PartialEq, Eq, Structural)]
pub struct Timestamp {
    pub secs: i64,
    pub nanos: u32,
}

/// Instants are ordered by their seconds, then by their nanoseconds.
pub open spec fn later(a: Timestamp, b: Timestamp) -> bool {
    a.secs > b.secs || (a.secs == b.secs && a.nanos > b.nanos)
}

/// The instant `days` days after `t`.
pub open spec fn plus_days(t: Timestamp, days: int) -> Timestamp {
    Timestamp { secs: (t.secs + days * SECS_PER_DAY) as i64, nanos: t.nanos }
}

impl Timestamp {
    /// An instant that a clock may report.
    pub open spec fn in_clock_range(self) -> bool {
        0 <= self.secs <= MAX_CLOCK_SECS && self.nanos < 1_000_000_000
    }

    /// Whether `self` comes strictly after `other`.
    pub fn is_after(&self, other: &Timestamp) -> (r: bool)
        ensures
            r == later(*self, *other),
    {
        self.secs > other.secs || (self.secs == other.secs && self.nanos > other.nanos)
    }

    /// The instant `days` days later (or earlier, for a negative count).
    pub fn add_days(&self, days: i64) -> (r: Timestamp)
        requires
            self.in_clock_range(),
            -1000 <= days <= 1000,
        ensures
            r == plus_days(*self, days as int),
    {
        Timestamp { secs: self.secs + days * SECS_PER_DAY, nanos: self.nanos }
    }
}

/// Relies on chrono::Utc::now: the system clock, read as seconds since the Unix epoch
/// (never negative there, and inside chrono's range of years) and the nanoseconds of
/// the duration since the epoch (below one second).
#[verifier::external_body]
pub(crate) fn utc_now() -> (r: Timestamp)
    ensures
        r.in_clock_range(),
{
    let now = chrono::Utc::now();
    Timestamp { secs: now.timestamp(), nanos: now.timestamp_subsec_nanos() }
}

} // verus!
