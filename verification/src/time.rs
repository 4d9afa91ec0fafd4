//! Instants and calendar dates as plain values, and what the `chrono` crate
//! computes on them.

use chrono::{DateTime, Datelike, NaiveDate, TimeZone, Utc};
use vstd::prelude::*;

verus! {

/// An instant in UTC: whole seconds since 1970-01-01T00:00:00Z, and the
/// nanoseconds into that second.
#[derive(Clone, Copy, Debug, PartialEq, Eq, Hash, Structural)]
pub struct Timestamp {
    pub secs: i64,
    pub nanos: u32,
}

/// A day of the proleptic Gregorian calendar, as the three numbers read off
/// a date. Nothing here says that such a day exists.
#[derive(Clone, Copy, Debug, PartialEq, Eq, Hash, Structural)]
pub struct CalendarDate {
    pub year: i32,
    pub month: u32,
    pub day: u32,
}

/// What `chrono::NaiveDate::parse_from_str` reads from `text` under the
/// format `format`: the date, or nothing where it reports an error.
pub uninterp spec fn date_reading(text: Seq<char>, format: Seq<char>) -> Option<CalendarDate>;

/// The seconds since the epoch at which `chrono` places the given time of
/// the given day in UTC, or nothing where it has no such instant.
pub uninterp spec fn utc_seconds_at(
    year: i32,
    month: u32,
    day: u32,
    hour: u32,
    minute: u32,
    second: u32,
) -> Option<i64>;

/// The first second that `chrono` can hold as an instant in UTC, counted
/// from the epoch: midnight at the start of the year -262143, the first
/// year of its dates.
pub const FIRST_SECOND: i64 = -8_334_601_228_800;

/// The last second that `chrono` can hold as an instant in UTC, counted
/// from the epoch: the last second of the year 262142, the last year of its
/// dates.
pub const LAST_SECOND: i64 = 8_210_266_876_799;

/// Whether `chrono` can hold the instant `secs` whole seconds after the
/// epoch.
pub open spec fn utc_holds_second(secs: i64) -> bool {
    FIRST_SECOND <= secs <= LAST_SECOND
}

impl Timestamp {
    /// Whether this instant is strictly later than `other`.
    pub open spec fn later_than(self, other: Timestamp) -> bool {
        self.secs > other.secs || (self.secs == other.secs && self.nanos > other.nanos)
    }

    /// Whether this instant is strictly later than `other`.
    pub fn is_after(&self, other: &Timestamp) -> (r: bool)
        ensures
            r == self.later_than(*other),
    {
        self.secs > other.secs || (self.secs == other.secs && self.nanos > other.nanos)
    }
}

/// The instant at which the given time of day falls on `date` in UTC.
pub open spec fn utc_instant(date: CalendarDate, hour: u32, minute: u32, second: u32) -> Option<
    Timestamp,
> {
    match utc_seconds_at(date.year, date.month, date.day, hour, minute, second) {
        Some(secs) => Some(Timestamp { secs, nanos: 0 }),
        None => None,
    }
}

/// The instant `secs` whole seconds after the epoch, where `chrono` can hold
/// it.
pub open spec fn epoch_instant(secs: i64) -> Option<Timestamp> {
    if utc_holds_second(secs) {
        Some(Timestamp { secs, nanos: 0 })
    } else {
        None
    }
}

/// Calls `chrono::NaiveDate::parse_from_str(text, format)` and reads the
/// year, month and day off the date it returns. Trusted: the result is what
/// `date_reading` names, and a month and a day that come back lie in the
/// ranges that `Datelike::month` and `Datelike::day` document.
#[verifier::external_body]
pub(crate) fn read_date(text: &str, format: &str) -> (r: Option<CalendarDate>)
    ensures
        r == date_reading(text@, format@),
        r matches Some(d) ==> 1 <= d.month <= 12 && 1 <= d.day <= 31,
{
    match NaiveDate::parse_from_str(text, format) {
        Ok(d) => Some(CalendarDate { year: d.year(), month: d.month(), day: d.day() }),
        Err(_) => None,
    }
}

/// Calls `chrono::Utc.with_ymd_and_hms` and takes the instant it returns as
/// seconds since the epoch. Trusted: the seconds are what `utc_seconds_at`
/// names, nothing comes back where the date or the time does not exist, and
/// the instant falls on a whole second.
#[verifier::external_body]
pub(crate) fn utc_at(date: CalendarDate, hour: u32, minute: u32, second: u32) -> (r: Option<
    Timestamp,
>)
    ensures
        r is Some <==> utc_seconds_at(date.year, date.month, date.day, hour, minute, second) is Some,
        r matches Some(t) ==> t.nanos == 0 && utc_seconds_at(
            date.year,
            date.month,
            date.day,
            hour,
            minute,
            second,
        ) == Some(t.secs),
{
    match Utc.with_ymd_and_hms(date.year, date.month, date.day, hour, minute, second).single() {
        Some(t) => Some(Timestamp { secs: t.timestamp(), nanos: t.timestamp_subsec_nanos() }),
        None => None,
    }
}

/// Calls `chrono::DateTime::from_timestamp(secs, 0)`. Trusted: an instant
/// comes back exactly where the day that `secs` falls on lies within the
/// years of `chrono`'s dates, which is from `FIRST_SECOND` to `LAST_SECOND`;
/// it is `secs` seconds after the epoch on the whole second, as the
/// documented round trip through `timestamp` and `timestamp_subsec_nanos`
/// says.
#[verifier::external_body]
pub(crate) fn utc_from_epoch(secs: i64) -> (r: Option<Timestamp>)
    ensures
        r is Some <==> FIRST_SECOND <= secs <= LAST_SECOND,
        r matches Some(t) ==> t.secs == secs && t.nanos == 0,
{
    match DateTime::from_timestamp(secs, 0) {
        Some(t) => Some(Timestamp { secs: t.timestamp(), nanos: t.timestamp_subsec_nanos() }),
        None => None,
    }
}

} // verus!
