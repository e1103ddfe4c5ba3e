//! Time: the one place where the clock enters the library.

use vstd::prelude::*;

verus! {

/// A point in time: whole seconds since the start of 1970, and the
/// nanoseconds into that second.
#[derive(Clone, Copy, Debug, PartialEq, Eq, Structural, Hash)]
pub struct Timestamp {
    pub secs: i64,
    pub nanos: u32,
}

/// The seconds of two weeks.
pub const TWO_WEEKS: i64 = 1_209_600;

impl Timestamp {
    /// This point in time is no later than `other`.
    pub open spec fn at_or_before(self, other: Timestamp) -> bool {
        self.secs < other.secs || (self.secs == other.secs && self.nanos <= other.nanos)
    }

    /// Tells whether this point in time is no later than `other`.
    pub fn is_at_or_before(&self, other: &Timestamp) -> (r: bool)
        ensures
            r == self.at_or_before(*other),
    {
        self.secs < other.secs || (self.secs == other.secs && self.nanos <= other.nanos)
    }
}

/// `now` lies no more than two weeks after `date`.
pub open spec fn within_two_weeks(now: Timestamp, date: Timestamp) -> bool {
    now.secs < date.secs + TWO_WEEKS || (now.secs == date.secs + TWO_WEEKS && now.nanos
        <= date.nanos)
}

/// Tells whether `now` lies no more than two weeks after `date`.
pub fn is_two_weeks_ago_or_later(now: Timestamp, date: Timestamp) -> (r: bool)
    ensures
        r == within_two_weeks(now, date),
{
    if date.secs > i64::MAX - TWO_WEEKS {
        true
    } else {
        let limit = date.secs + TWO_WEEKS;
        now.secs < limit || (now.secs == limit && now.nanos <= date.nanos)
    }
}

/// The time now, read by `chrono::Utc::now` and taken apart by
/// `DateTime::timestamp` and `DateTime::timestamp_subsec_nanos`. Nothing
/// is claimed of it: every caller is proved for whatever time it is.
#[verifier::external_body]
pub(crate) fn utc_now() -> Timestamp {
    let now = chrono::Utc::now();
    Timestamp { secs: now.timestamp(), nanos: now.timestamp_subsec_nanos() }
}

} // verus!
