//! Merge times as instants that can be put in order.

use chrono::DateTime;
use vstd::prelude::*;

verus! {

/// A point in time, whatever the offset it was written with: the whole seconds
/// since 1970-01-01T00:00:00Z, and the nanoseconds since that second began.
#[derive(Clone, Copy, Debug, PartialEq, Eq, Structural)]
pub struct Instant {
    pub secs: i64,
    pub nanos: u32,
}

impl Instant {
    /// Whether this instant comes strictly before `other`.
    pub open spec fn earlier_than(self, other: Instant) -> bool {
        self.secs < other.secs || (self.secs == other.secs && self.nanos < other.nanos)
    }

    /// Whether this instant comes strictly before `other`.
    pub fn lt(&self, other: &Instant) -> (res: bool)
        ensures
            res == self.earlier_than(*other),
    {
        self.secs < other.secs || (self.secs == other.secs && self.nanos < other.nanos)
    }
}

/// The instant that `chrono` reads from `text` as an RFC 3339 date and time,
/// or `None` where it rejects the text.
pub uninterp spec fn rfc3339_instant(text: Seq<char>) -> Option<Instant>;

/// Calls `chrono::DateTime::parse_from_rfc3339` and hands back the instant it
/// found, as `DateTime::timestamp` and `DateTime::timestamp_subsec_nanos` give
/// it. Trusted: that the same text always gives the same answer. Nothing is
/// claimed of which texts are accepted or which instant a text stands for.
///
/// `chrono` orders two of its `DateTime`s as `Instant::earlier_than` orders
/// these two numbers: by the seconds, then by the nanoseconds.
#[verifier::external_body]
pub(crate) fn parse_rfc3339(text: &str) -> (res: Option<Instant>)
    ensures
        res == rfc3339_instant(text@),
{
    match DateTime::parse_from_rfc3339(text) {
        Ok(time) => Some(Instant { secs: time.timestamp(), nanos: time.timestamp_subsec_nanos() }),
        Err(_) => None,
    }
}

/// Whether `time` is an instant strictly later than `since`.
pub open spec fn later(since: Instant, time: Option<Instant>) -> bool {
    match time {
        Some(t) => since.earlier_than(t),
        None => false,
    }
}

/// Whether `time` is an instant strictly later than `since`; no instant is not later.
pub fn is_later(since: Instant, time: Option<Instant>) -> (res: bool)
    ensures
        res == later(since, time),
{
    match time {
        Some(t) => since.lt(&t),
        None => false,
    }
}

} // verus!
