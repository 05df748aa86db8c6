//! Points in time as the engine compares and writes them.

use vstd::prelude::*;

verus! {

/// A point in time: whole seconds since the start of 1970 in UTC, and the
/// nanoseconds since the last second boundary.
#[derive(Clone, Copy, Debug, PartialEq, Eq, Structural)]
pub struct Timestamp {
    pub secs: i64,
    pub nanos: u32,
}

/// The point in time that an RFC 3339 text denotes, as seconds and
/// nanoseconds; `None` where the text is not a valid RFC 3339 date-time.
pub uninterp spec fn rfc3339_instant(text: Seq<char>) -> Option<(i64, u32)>;

/// The RFC 3339 text of a point in time in UTC; `None` where the seconds
/// and nanoseconds denote no representable date.
pub uninterp spec fn rfc3339_text(secs: i64, nanos: u32) -> Option<Seq<char>>;

/// Calls `chrono::DateTime::parse_from_rfc3339` and reads the result with
/// `timestamp` and `timestamp_subsec_nanos`. A text that chrono rejects
/// gives `None`; the result depends on the text alone.
#[verifier::external_body]
fn parse_with_chrono(text: &str) -> (parsed: Option<(i64, u32)>)
    ensures
        parsed == rfc3339_instant(text@),
{
    match chrono::DateTime::parse_from_rfc3339(text) {
        Ok(time) => Some((time.timestamp(), time.timestamp_subsec_nanos())),
        Err(_) => None,
    }
}

/// Calls `chrono::DateTime::from_timestamp` and, where that gives a date,
/// `to_rfc3339` on it. The result depends on the two numbers alone.
#[verifier::external_body]
fn format_with_chrono(secs: i64, nanos: u32) -> (text: Option<String>)
    ensures
        match text {
            Some(t) => rfc3339_text(secs, nanos) == Some(t@),
            None => rfc3339_text(secs, nanos) is None,
        },
{
    match chrono::DateTime::from_timestamp(secs, nanos) {
        Some(time) => Some(time.to_rfc3339()),
        None => None,
    }
}

/// The timestamp that parsed seconds and nanoseconds stand for.
pub open spec fn timestamp_of(parsed: Option<(i64, u32)>) -> Option<Timestamp> {
    match parsed {
        Some((secs, nanos)) => Some(Timestamp { secs, nanos }),
        None => None,
    }
}

/// The whole seconds from one point in time to another, each given by its
/// seconds and nanoseconds; `None` where one of the two denotes no
/// representable date. A fraction of a second is cut off towards zero, and
/// a leap second between the two is counted.
pub uninterp spec fn whole_seconds_between(
    now_secs: i64,
    now_nanos: u32,
    then_secs: i64,
    then_nanos: u32,
) -> Option<i64>;

/// Calls `chrono::DateTime::from_timestamp` on both points in time and,
/// where both give a date, subtracts the second from the first and reads
/// the difference with `TimeDelta::num_seconds`. The result depends on the
/// four numbers alone.
#[verifier::external_body]
fn elapsed_with_chrono(now: Timestamp, then: Timestamp) -> (elapsed: Option<i64>)
    ensures
        elapsed == whole_seconds_between(now.secs, now.nanos, then.secs, then.nanos),
{
    match (
        chrono::DateTime::from_timestamp(now.secs, now.nanos),
        chrono::DateTime::from_timestamp(then.secs, then.nanos),
    ) {
        (Some(later), Some(earlier)) => Some((later - earlier).num_seconds()),
        _ => None,
    }
}

/// The whole seconds from `then` to `now`.
pub open spec fn elapsed_seconds_spec(now: Timestamp, then: Timestamp) -> Option<i64> {
    whole_seconds_between(now.secs, now.nanos, then.secs, then.nanos)
}

impl Timestamp {
    /// Reads an RFC 3339 text.
    pub fn parse(text: &str) -> (parsed: Option<Timestamp>)
        ensures
            parsed == timestamp_of(rfc3339_instant(text@)),
    {
        match parse_with_chrono(text) {
            Some((secs, nanos)) => Some(Timestamp { secs, nanos }),
            None => None,
        }
    }

    /// Writes the point in time as RFC 3339 text.
    pub fn to_rfc3339(&self) -> (text: Option<String>)
        ensures
            match text {
                Some(t) => rfc3339_text(self.secs, self.nanos) == Some(t@),
                None => rfc3339_text(self.secs, self.nanos) is None,
            },
    {
        format_with_chrono(self.secs, self.nanos)
    }

    /// The whole seconds that have passed since `then`; `None` where one
    /// of the two denotes no representable date.
    pub fn seconds_since(&self, then: &Timestamp) -> (elapsed: Option<i64>)
        ensures
            elapsed == elapsed_seconds_spec(*self, *then),
    {
        elapsed_with_chrono(*self, *then)
    }
}

} // verus!
