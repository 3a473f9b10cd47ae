//! Instants in time, as the integers by which they are ordered.

use vstd::prelude::*;

verus! {

/// An offset-aware instant: seconds and nanoseconds since the Unix epoch
/// in UTC, and the offset of local time from UTC in seconds.
#[derive(Clone, Copy, Debug, PartialEq, Eq, Structural)]
pub struct Timestamp {
    pub seconds: i64,
    pub nanos: u32,
    pub offset: i32,
}

/// The instant that an RFC 3339 text denotes, if it is one.
pub uninterp spec fn rfc3339_instant(text: Seq<char>) -> Option<Timestamp>;

/// The instant one second before `instant`, if the calendar can represent it.
pub uninterp spec fn one_second_before(instant: Timestamp) -> Option<Timestamp>;

/// The RFC 3339 text of an instant, if the calendar can represent it.
pub uninterp spec fn rfc3339_text(instant: Timestamp) -> Option<Seq<char>>;

impl Timestamp {
    /// `self` is strictly earlier than `other`; the offset plays no part.
    pub open spec fn precedes(self, other: Timestamp) -> bool {
        self.seconds < other.seconds || (self.seconds == other.seconds && self.nanos < other.nanos)
    }

    /// `self` is not later than `other`.
    pub open spec fn not_after(self, other: Timestamp) -> bool {
        !other.precedes(self)
    }

    /// Whether `self` is strictly earlier than `other`.
    pub fn is_before(&self, other: &Timestamp) -> (before: bool)
        ensures
            before == self.precedes(*other),
    {
        self.seconds < other.seconds || (self.seconds == other.seconds && self.nanos < other.nanos)
    }
}

/// `chrono::DateTime::parse_from_rfc3339`, with the result given as its
/// UTC timestamp, sub-second nanoseconds and offset. The contract only
/// names the result.
#[verifier::external_body]
pub(crate) fn parse_rfc3339(text: &str) -> (parsed: Option<Timestamp>)
    ensures
        parsed == rfc3339_instant(text@),
{
    match chrono::DateTime::parse_from_rfc3339(text) {
        Ok(date) => Some(
            Timestamp {
                seconds: date.timestamp(),
                nanos: date.timestamp_subsec_nanos(),
                offset: date.offset().local_minus_utc(),
            },
        ),
        Err(_) => None,
    }
}

/// `chrono::DateTime::checked_sub_signed` with a duration of one second,
/// on the date-time rebuilt from `instant`. The contract names the result
/// and claims of it that it is strictly earlier and keeps the offset.
#[verifier::external_body]
pub(crate) fn second_earlier(instant: &Timestamp) -> (earlier: Option<Timestamp>)
    ensures
        earlier == one_second_before(*instant),
        earlier matches Some(e) ==> e.precedes(*instant) && e.offset == instant.offset,
{
    let zone = chrono::FixedOffset::east_opt(instant.offset)?;
    let utc = chrono::DateTime::from_timestamp(instant.seconds, instant.nanos)?;
    let date = utc.with_timezone(&zone).checked_sub_signed(chrono::TimeDelta::try_seconds(1)?)?;
    Some(
        Timestamp {
            seconds: date.timestamp(),
            nanos: date.timestamp_subsec_nanos(),
            offset: date.offset().local_minus_utc(),
        },
    )
}

/// `chrono::DateTime::to_rfc3339` on the date-time rebuilt from `instant`.
/// The contract only names the result.
#[verifier::external_body]
pub(crate) fn to_rfc3339(instant: &Timestamp) -> (text: Option<String>)
    ensures
        match text {
            Some(s) => rfc3339_text(*instant) == Some(s@),
            None => rfc3339_text(*instant) is None,
        },
{
    let zone = chrono::FixedOffset::east_opt(instant.offset)?;
    let utc = chrono::DateTime::from_timestamp(instant.seconds, instant.nanos)?;
    Some(utc.with_timezone(&zone).to_rfc3339())
}

} // verus!
