//! Instants in time, as milliseconds since the Unix epoch in UTC.

use vstd::prelude::*;
use crate::fixed::trunc_div;

verus! {

/// The number of milliseconds in a day.
pub const MILLIS_PER_DAY: i64 = 86_400_000;

/// An instant in UTC, to the millisecond.
#[derive(Clone, Copy, Debug, PartialEq, Eq, Structural)]
pub struct Timestamp {
    pub millis: i64,
}

/// The RFC 3339 text that chrono writes for the instant `millis`
/// milliseconds after the Unix epoch, or `None` where chrono has no date
/// for it.
pub uninterp spec fn rfc3339_text(millis: int) -> Option<Seq<char>>;

/// The instant, in milliseconds after the Unix epoch, that chrono reads
/// from an RFC 3339 text, or `None` where it reads none.
pub uninterp spec fn rfc3339_millis(text: Seq<char>) -> Option<int>;

/// The whole days from `from` to `to`, rounded toward zero.
pub open spec fn whole_days(from: int, to: int) -> int {
    trunc_div(to - from, MILLIS_PER_DAY as int)
}

/// Reads the system clock through `chrono::Utc::now`, cut to the
/// millisecond. Nothing is promised of the value: two calls may differ.
/// chrono stops the program if the system clock stands before 1970.
#[verifier::external_body]
pub(crate) fn clock_now() -> Timestamp {
    Timestamp { millis: chrono::Utc::now().timestamp_millis() }
}

/// Builds the date with `chrono::DateTime::from_timestamp_millis`, which
/// gives `None` outside chrono's range of years, and writes it with
/// `DateTime::to_rfc3339`. The text is named, not defined.
#[verifier::external_body]
pub(crate) fn render_rfc3339(millis: i64) -> (r: Option<String>)
    ensures
        match r {
            Some(s) => rfc3339_text(millis as int) == Some(s@),
            None => rfc3339_text(millis as int) is None,
        },
{
    chrono::DateTime::from_timestamp_millis(millis).map(|d| d.to_rfc3339())
}

/// Reads a date with `chrono::DateTime::parse_from_rfc3339` and takes its
/// `timestamp_millis`; `None` where chrono rejects the text. The instant is
/// named, not defined.
#[verifier::external_body]
pub(crate) fn parse_rfc3339(text: &str) -> (r: Option<i64>)
    ensures
        match r {
            Some(m) => rfc3339_millis(text@) == Some(m as int),
            None => rfc3339_millis(text@) is None,
        },
{
    chrono::DateTime::parse_from_rfc3339(text).ok().map(|d| d.timestamp_millis())
}

impl Timestamp {
    /// The instant `millis` milliseconds after the Unix epoch.
    pub fn from_millis(millis: i64) -> (r: Timestamp)
        ensures
            r.millis == millis,
    {
        Timestamp { millis }
    }

    /// The current instant. Nothing is known of it.
    pub fn now() -> Timestamp {
        clock_now()
    }

    /// The whole days from `self` to `later`, rounded toward zero; negative
    /// where `later` is the earlier of the two.
    pub fn days_until(self, later: Timestamp) -> (d: i64)
        ensures
            d == whole_days(self.millis as int, later.millis as int),
    {
        let diff: i128 = later.millis as i128 - self.millis as i128;
        let d: i128 = diff / 86_400_000i128;
        d as i64
    }

    /// The instant `days` days before `self`, held at the ends of the range
    /// of `i64`.
    pub fn minus_days(self, days: u32) -> (r: Timestamp)
        ensures
            r.millis == crate::fixed::saturate(self.millis - days * MILLIS_PER_DAY),
    {
        let back: i128 = (days as i128) * 86_400_000i128;
        let m: i128 = self.millis as i128 - back;
        Timestamp { millis: crate::fixed::narrow(m) }
    }

    /// The RFC 3339 text of the instant, where chrono has a date for it.
    pub fn to_rfc3339(self) -> (r: Option<String>)
        ensures
            match r {
                Some(s) => rfc3339_text(self.millis as int) == Some(s@),
                None => rfc3339_text(self.millis as int) is None,
            },
    {
        render_rfc3339(self.millis)
    }

    /// The instant that an RFC 3339 text names, where it names one.
    pub fn parse_from_rfc3339(text: &str) -> (r: Option<Timestamp>)
        ensures
            match r {
                Some(t) => rfc3339_millis(text@) == Some(t.millis as int),
                None => rfc3339_millis(text@) is None,
            },
    {
        match parse_rfc3339(text) {
            Some(m) => Some(Timestamp { millis: m }),
            None => None,
        }
    }
}

} // verus!
