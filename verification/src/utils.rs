//! Calendar days and their boundaries in a time zone.

use crate::error::{Error, Invalid};
use chrono::{Datelike, TimeZone};
use vstd::prelude::*;

verus! {

/// The end of a day to look for.
#[derive(Clone, Copy, PartialEq, Eq, Structural, Debug)]
pub enum DayBoundary {
    /// The first instant of the day.
    Start,
    /// The last microsecond of the day.
    End,
}

/// A calendar day of the proleptic Gregorian calendar.
#[derive(Clone, Copy, PartialEq, Eq, Structural, Debug)]
pub struct Day {
    pub year: i32,
    pub month: u32,
    pub day: u32,
}

/// The instants, in microseconds since the Unix epoch, at which a time zone
/// shows a given local time.
#[derive(Clone, Copy, PartialEq, Eq, Structural, Debug)]
pub enum LocalInstant {
    /// The name is not that of a time zone.
    UnknownZone,
    /// The zone skips the local time.
    Unmapped,
    /// The zone shows the local time once.
    Single(i64),
    /// The zone shows the local time twice; the first instant is given first.
    Ambiguous(i64, i64),
}

/// The first year of the calendar in use.
pub const MIN_YEAR: i32 = -262143;

/// The last year of the calendar in use.
pub const MAX_YEAR: i32 = 262142;

/// The format in which days are written: year, month and day, with hyphens.
pub open spec fn day_format() -> Seq<char> {
    "%Y-%m-%d"@
}

/// Whether the year has a February 29.
pub open spec fn is_leap_year(year: int) -> bool {
    year % 4 == 0 && (year % 100 != 0 || year % 400 == 0)
}

/// The number of days of a month.
pub open spec fn days_in_month(year: int, month: int) -> int {
    if month == 2 {
        if is_leap_year(year) {
            29
        } else {
            28
        }
    } else if month == 4 || month == 6 || month == 9 || month == 11 {
        30
    } else {
        31
    }
}

impl Day {
    /// Whether this is a day of the calendar.
    pub open spec fn on_calendar(self) -> bool {
        &&& MIN_YEAR <= self.year <= MAX_YEAR
        &&& 1 <= self.month <= 12
        &&& 1 <= self.day <= days_in_month(self.year as int, self.month as int)
    }

    /// The day after this one, where the calendar has one.
    pub open spec fn following(self) -> Option<Day> {
        if !self.on_calendar() {
            None
        } else if self.day < days_in_month(self.year as int, self.month as int) {
            Some(Day { day: (self.day + 1) as u32, ..self })
        } else if self.month < 12 {
            Some(Day { month: (self.month + 1) as u32, day: 1, ..self })
        } else if self.year < MAX_YEAR {
            Some(Day { year: (self.year + 1) as i32, month: 1, day: 1 })
        } else {
            None
        }
    }

    /// Whether this day comes after `other`.
    pub open spec fn is_after(self, other: Day) -> bool {
        ||| self.year > other.year
        ||| self.year == other.year && self.month > other.month
        ||| self.year == other.year && self.month == other.month && self.day > other.day
    }

    /// Whether this day comes after `other`.
    pub fn comes_after(&self, other: &Day) -> (after: bool)
        ensures
            after == self.is_after(*other),
    {
        self.year > other.year || (self.year == other.year && (self.month > other.month || (
        self.month == other.month && self.day > other.day)))
    }
}

/// What `chrono::NaiveDate::parse_from_str` makes of `text` under `format`:
/// the day it reads, or `None` where it reads none.
pub uninterp spec fn parsed_day(text: Seq<char>, format: Seq<char>) -> Option<Day>;

/// The instants at which the time zone named `zone` shows the local time
/// given, as `chrono_tz::Tz` has them.
pub uninterp spec fn local_time_in_zone(
    zone: Seq<char>,
    year: i32,
    month: u32,
    day: u32,
    hour: u32,
    minute: u32,
    second: u32,
) -> LocalInstant;

/// The instants at which the time zone named `zone` shows midnight of the day
/// given.
pub open spec fn midnight_in_zone(zone: Seq<char>, year: i32, month: u32, day: u32) -> LocalInstant {
    local_time_in_zone(zone, year, month, day, 0, 0, 0)
}

/// Calls `chrono::NaiveDate::parse_from_str` and takes year, month and day of
/// the date it returns.
///
/// Trusted: the result depends on the text and the format alone.
#[verifier::external_body]
fn parse_day(text: &str, format: &str) -> (r: Option<Day>)
    ensures
        r == parsed_day(text@, format@),
{
    match chrono::NaiveDate::parse_from_str(text, format) {
        Ok(date) => Some(Day { year: date.year(), month: date.month(), day: date.day() }),
        Err(_) => None,
    }
}

/// Calls `chrono::NaiveDate::from_ymd_opt` and then `NaiveDate::succ_opt`.
///
/// Trusted: the result is the next day of the proleptic Gregorian calendar,
/// and `None` where the input is no day of the calendar or its last day.
#[verifier::external_body]
fn next_day(day: Day) -> (r: Option<Day>)
    ensures
        r == day.following(),
{
    match chrono::NaiveDate::from_ymd_opt(day.year, day.month, day.day) {
        None => None,
        Some(date) => match date.succ_opt() {
            None => None,
            Some(next) => Some(Day { year: next.year(), month: next.month(), day: next.day() }),
        },
    }
}

/// Hands the zone over to `chrono_tz` by its name and calls
/// `TimeZone::with_ymd_and_hms` on it for the local time given; each instant
/// it returns is taken in microseconds since the Unix epoch.
///
/// Trusted: the result depends on the zone's name and the local time alone.
#[verifier::external_body]
fn local_time(zone: &str, day: Day, hour: u32, minute: u32, second: u32) -> (r: LocalInstant)
    ensures
        r == local_time_in_zone(zone@, day.year, day.month, day.day, hour, minute, second),
{
    match zone.parse::<chrono_tz::Tz>() {
        Err(_) => LocalInstant::UnknownZone,
        Ok(tz) => match tz.with_ymd_and_hms(day.year, day.month, day.day, hour, minute, second) {
            chrono::LocalResult::None => LocalInstant::Unmapped,
            chrono::LocalResult::Single(t) => LocalInstant::Single(t.timestamp_micros()),
            chrono::LocalResult::Ambiguous(earlier, later) => LocalInstant::Ambiguous(
                earlier.timestamp_micros(),
                later.timestamp_micros(),
            ),
        },
    }
}

/// The instants at which the zone named `zone` shows midnight of `day`.
fn midnight(zone: &str, day: Day) -> (r: LocalInstant)
    ensures
        r == midnight_in_zone(zone@, day.year, day.month, day.day),
{
    local_time(zone, day, 0, 0, 0)
}

/// The start of a day, given the instants at which the zone shows its
/// midnight: the one instant, where there is exactly one.
pub open spec fn start_at(local: LocalInstant) -> Result<i64, Error> {
    match local {
        LocalInstant::Single(t) => Ok(t),
        LocalInstant::UnknownZone => Err(Error::Validation(Invalid::TimeZone)),
        _ => Err(Error::Validation(Invalid::DayBoundary)),
    }
}

/// The end of a day, given the instants at which the zone shows midnight of
/// the next day: one microsecond before the first of them.
pub open spec fn end_before(local: LocalInstant) -> Result<i64, Error> {
    match local {
        LocalInstant::Single(t) | LocalInstant::Ambiguous(t, _) => if t > i64::MIN {
            Ok((t - 1) as i64)
        } else {
            Err(Error::Validation(Invalid::DayBoundary))
        },
        LocalInstant::UnknownZone => Err(Error::Validation(Invalid::TimeZone)),
        LocalInstant::Unmapped => Err(Error::Validation(Invalid::DayBoundary)),
    }
}

/// The boundary of the day that `text` names in the zone `zone`.
pub open spec fn day_boundary(text: Seq<char>, zone: Seq<char>, boundary: DayBoundary) -> Result<
    i64,
    Error,
> {
    match parsed_day(text, day_format()) {
        None => Err(Error::Validation(Invalid::DateFormat)),
        Some(day) => match boundary {
            DayBoundary::Start => start_at(midnight_in_zone(zone, day.year, day.month, day.day)),
            DayBoundary::End => match day.following() {
                None => Err(Error::Validation(Invalid::DayBoundary)),
                Some(next) => end_before(
                    midnight_in_zone(zone, next.year, next.month, next.day),
                ),
            },
        },
    }
}

/// The first instant of a day whose midnight the zone shows at `local`.
pub fn start_of_day(local: LocalInstant) -> (r: Result<i64, Error>)
    ensures
        r == start_at(local),
{
    match local {
        LocalInstant::Single(t) => Ok(t),
        LocalInstant::UnknownZone => Err(Error::Validation(Invalid::TimeZone)),
        _ => Err(Error::Validation(Invalid::DayBoundary)),
    }
}

/// The last microsecond of a day, where the zone shows midnight of the next
/// day at `local`.
pub fn end_of_day(local: LocalInstant) -> (r: Result<i64, Error>)
    ensures
        r == end_before(local),
{
    let first = match local {
        LocalInstant::Single(t) => t,
        LocalInstant::Ambiguous(t, _) => t,
        LocalInstant::UnknownZone => { return Err(Error::Validation(Invalid::TimeZone)); },
        LocalInstant::Unmapped => { return Err(Error::Validation(Invalid::DayBoundary)); },
    };
    match first.checked_sub(1) {
        Some(t) => Ok(t),
        None => Err(Error::Validation(Invalid::DayBoundary)),
    }
}

/// Reads `text` as a day written year-month-day; `None` where it is none.
pub fn parse_date(text: &str) -> (r: Option<Day>)
    ensures
        r == parsed_day(text@, day_format()),
{
    parse_day(text, "%Y-%m-%d")
}

/// The boundary, in microseconds since the Unix epoch, of the day that
/// `date_str` names in the time zone named `tz`: its first instant, or its
/// last microsecond.
pub fn parse_day_boundary(date_str: &str, tz: &str, boundary: DayBoundary) -> (r: Result<
    i64,
    Error,
>)
    ensures
        r == day_boundary(date_str@, tz@, boundary),
{
    let day = match parse_date(date_str) {
        Some(day) => day,
        None => { return Err(Error::Validation(Invalid::DateFormat)); },
    };
    match boundary {
        DayBoundary::Start => start_of_day(midnight(tz, day)),
        DayBoundary::End => {
            let next = match next_day(day) {
                Some(next) => next,
                None => { return Err(Error::Validation(Invalid::DayBoundary)); },
            };
            end_of_day(midnight(tz, next))
        },
    }
}

} // verus!
