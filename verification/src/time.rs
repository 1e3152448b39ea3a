//! Points in time as the engine compares and subtracts them.

use vstd::prelude::*;

verus! {

/// Largest number of seconds from the Unix epoch that a timestamp may hold (beyond the range of
/// the calendar the database uses, and small enough that milliseconds fit an `i64`).
pub const MAX_TIMESTAMP_SECS: i64 = 9_000_000_000_000;

/// A date and time without time zone, held as whole seconds from 1970-01-01T00:00:00 and the
/// nanoseconds past that second (a leap second reads as 1_000_000_000 or more nanoseconds).
/// Ordering is by seconds, then nanoseconds, which is the order of the calendar.
#[derive(PartialEq, Eq, Structural, Clone, Copy, Debug)]
pub struct Timestamp {
    secs: i64,
    nanos: u32,
}

impl Timestamp {
    /// Within the range a timestamp may hold.
    pub open spec fn valid_parts(secs: int, nanos: int) -> bool {
        -MAX_TIMESTAMP_SECS <= secs <= MAX_TIMESTAMP_SECS && 0 <= nanos < 2_000_000_000
    }

    #[verifier::type_invariant]
    spec fn inv(self) -> bool {
        Self::valid_parts(self.secs as int, self.nanos as int)
    }

    /// Seconds from the epoch.
    pub closed spec fn spec_secs(self) -> int {
        self.secs as int
    }

    /// Nanoseconds past the second.
    pub closed spec fn spec_nanos(self) -> int {
        self.nanos as int
    }

    /// Milliseconds from the epoch, not counting leap seconds: `secs * 1000 + nanos / 1_000_000`.
    pub open spec fn millis(self) -> int {
        self.spec_secs() * 1000 + self.spec_nanos() / 1_000_000
    }

    /// `self` comes strictly after `other`.
    pub open spec fn after(self, other: Timestamp) -> bool {
        self.spec_secs() > other.spec_secs() || (self.spec_secs() == other.spec_secs()
            && self.spec_nanos() > other.spec_nanos())
    }

    /// The timestamp `secs` seconds and `nanos` nanoseconds after the epoch, or `None` when the
    /// parts are out of range.
    pub fn new(secs: i64, nanos: u32) -> (r: Option<Timestamp>)
        ensures
            r is Some <==> Self::valid_parts(secs as int, nanos as int),
            r matches Some(t) ==> t.spec_secs() == secs && t.spec_nanos() == nanos,
    {
        if -MAX_TIMESTAMP_SECS <= secs && secs <= MAX_TIMESTAMP_SECS && nanos < 2_000_000_000 {
            Some(Timestamp { secs, nanos })
        } else {
            None
        }
    }

    /// Seconds from the epoch.
    pub fn secs(&self) -> (r: i64)
        ensures
            r == self.spec_secs(),
    {
        self.secs
    }

    /// Nanoseconds past the second.
    pub fn nanos(&self) -> (r: u32)
        ensures
            r == self.spec_nanos(),
    {
        self.nanos
    }

    /// Milliseconds from the epoch, as `NaiveDateTime::timestamp_millis` counts them.
    pub fn timestamp_millis(&self) -> (r: i64)
        ensures
            r == self.millis(),
    {
        proof {
            use_type_invariant(self);
        }
        self.secs * 1000 + (self.nanos / 1_000_000) as i64
    }

    /// True when `self` comes strictly after `other`.
    pub fn is_after(&self, other: &Timestamp) -> (r: bool)
        ensures
            r == self.after(*other),
    {
        self.secs > other.secs || (self.secs == other.secs && self.nanos > other.nanos)
    }
}

} // verus!
