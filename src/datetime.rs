//! Calendar values as plain numbers, filled in by chrono's parsers.
use chrono::{Datelike, Timelike};
use vstd::prelude::*;

verus! {

/// A calendar day in the proleptic Gregorian calendar.
///
/// `days_from_ce` counts days with 0001-01-01 as day 1, and `weekday` counts
/// days from Monday (Monday is 0, Sunday is 6).
#[derive(Clone, Copy, Debug, PartialEq, Eq, Structural)]
pub struct CivilDate {
    pub year: i32,
    pub month: u32,
    pub day: u32,
    pub days_from_ce: i32,
    pub weekday: u32,
}

/// An instant in UTC: its calendar day, the time of day, and the text that
/// chrono writes for it (such as `2024-03-04 10:00:00 UTC`).
#[derive(Debug)]
pub struct UtcDateTime {
    pub date: CivilDate,
    pub secs_of_day: u32,
    pub nanosecond: u32,
    pub text: String,
}

/// Chrono's day number (0001-01-01 is day 1) of a calendar day.
pub uninterp spec fn ce_day_of(year: int, month: int, day: int) -> int;

impl CivilDate {
    /// A day as chrono reports it: month and day in range, the day number
    /// that of the calendar day, and the weekday that of the day number,
    /// day 1 (0001-01-01) being a Monday.
    pub open spec fn wf(self) -> bool {
        &&& 1 <= self.month <= 12
        &&& 1 <= self.day <= 31
        &&& self.days_from_ce == ce_day_of(self.year as int, self.month as int, self.day as int)
        &&& self.weekday == (self.days_from_ce - 1) % 7
    }
}

/// What identifies an instant: its day and its time within that day.
pub open spec fn instant_of(d: UtcDateTime) -> (int, int, int) {
    (d.date.days_from_ce as int, d.secs_of_day as int, d.nanosecond as int)
}

/// Day number of the Monday that starts the ISO week holding `d`.
pub open spec fn week_start(d: CivilDate) -> int {
    d.days_from_ce - d.weekday
}

/// What chrono makes of an RFC 3339 text, taken to UTC, or its error text.
pub uninterp spec fn rfc3339_utc_of(s: Seq<char>) -> Result<UtcDateTime, Seq<char>>;

/// What chrono makes of a `YYYY-MM-DD` text, or its error text.
pub uninterp spec fn naive_date_of(s: Seq<char>) -> Result<CivilDate, Seq<char>>;

impl UtcDateTime {
    /// A copy equal to `self`.
    pub fn duplicate(&self) -> (r: UtcDateTime)
        ensures
            r == *self,
    {
        UtcDateTime {
            date: self.date,
            secs_of_day: self.secs_of_day,
            nanosecond: self.nanosecond,
            text: self.text.clone(),
        }
    }

    /// Whether two values name the same instant.
    pub fn same_instant(&self, other: &UtcDateTime) -> (r: bool)
        ensures
            r == (instant_of(*self) == instant_of(*other)),
    {
        self.date.days_from_ce == other.date.days_from_ce && self.secs_of_day == other.secs_of_day
            && self.nanosecond == other.nanosecond
    }
}

/// Relies on chrono's `DateTime::parse_from_rfc3339`, taken to UTC with
/// `with_timezone(&Utc)`; the fields are read with chrono's `Datelike` and
/// `Timelike` accessors (month 1 to 12, day 1 to 31, `num_days_from_ce`
/// counting 0001-01-01 as day 1, weekday from Monday), and the error is the
/// parse error's text.
#[verifier::external_body]
pub(crate) fn parse_rfc3339(s: &str) -> (r: Result<UtcDateTime, String>)
    ensures
        match r {
            Ok(d) => rfc3339_utc_of(s@) == Ok::<UtcDateTime, Seq<char>>(d) && d.date.wf()
                && d.date.days_from_ce == ce_day_of(d.date.year as int, d.date.month as int, d.date.day as int),
            Err(e) => rfc3339_utc_of(s@) == Err::<UtcDateTime, Seq<char>>(e@),
        },
{
    match chrono::DateTime::parse_from_rfc3339(s) {
        Ok(t) => {
            let u = t.with_timezone(&chrono::Utc);
            let n = u.date_naive();
            let date = CivilDate { year: n.year(), month: n.month(), day: n.day(),
                days_from_ce: n.num_days_from_ce(), weekday: n.weekday().num_days_from_monday() };
            Ok(UtcDateTime { date, secs_of_day: u.num_seconds_from_midnight(),
                nanosecond: u.nanosecond(), text: u.to_string() })
        },
        Err(e) => Err(e.to_string()),
    }
}

/// Relies on chrono's `FromStr` for `NaiveDate` (`YYYY-MM-DD`); the fields
/// are read with chrono's `Datelike` accessors, as for `parse_rfc3339`, and
/// the error is the parse error's text.
#[verifier::external_body]
pub(crate) fn parse_date(s: &str) -> (r: Result<CivilDate, String>)
    ensures
        match r {
            Ok(d) => naive_date_of(s@) == Ok::<CivilDate, Seq<char>>(d) && d.wf()
                && d.days_from_ce == ce_day_of(d.year as int, d.month as int, d.day as int),
            Err(e) => naive_date_of(s@) == Err::<CivilDate, Seq<char>>(e@),
        },
{
    match s.parse::<chrono::NaiveDate>() {
        Ok(n) => Ok(CivilDate { year: n.year(), month: n.month(), day: n.day(),
            days_from_ce: n.num_days_from_ce(), weekday: n.weekday().num_days_from_monday() }),
        Err(e) => Err(e.to_string()),
    }
}

/// The Monday that starts the ISO week of `d`, as a day number.
pub fn week_start_of(d: &CivilDate) -> (r: i64)
    ensures
        r == week_start(*d),
{
    d.days_from_ce as i64 - d.weekday as i64
}

} // verus!
