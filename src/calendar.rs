//! Calendar dates and wall-clock instants, held as plain numbers.
//!
//! A [`Date`] is a day number counted as chrono counts it (0001-01-01 is day 1);
//! a [`Timestamp`] is a date plus the seconds elapsed since that date's midnight.
//! Instants are compared and subtracted as whole seconds.
use chrono::{Datelike, Timelike};
use vstd::prelude::*;

verus! {

/// Seconds in one civil day.
pub const SECONDS_PER_DAY: u32 = 86400;

/// Earliest year that chrono's `NaiveDate` represents.
pub const MIN_YEAR: i32 = -262143;

/// Latest year that chrono's `NaiveDate` represents.
pub const MAX_YEAR: i32 = 262142;

/// Leap years of the proleptic Gregorian calendar.
pub open spec fn is_leap_year(year: int) -> bool {
    year % 4 == 0 && (year % 100 != 0 || year % 400 == 0)
}

/// Number of days in `month` (1 to 12) of `year`.
pub open spec fn days_in_month(year: int, month: int) -> int {
    if month == 2 {
        if is_leap_year(year) {
            29
        } else {
            28
        }
    } else if month == 4 || month == 6 || month == 9 || month == 11 {
        30
    } else {
        31
    }
}

/// A calendar date that exists and lies within chrono's range of years.
pub open spec fn is_valid_date(year: i32, month: u32, day: u32) -> bool {
    &&& MIN_YEAR <= year <= MAX_YEAR
    &&& 1 <= month <= 12
    &&& 1 <= day <= days_in_month(year as int, month as int)
}

/// Days in the months of `year` that come before `month`.
pub open spec fn days_before_month(year: int, month: int) -> int {
    let common: int = if month <= 1 {
        0
    } else if month == 2 {
        31
    } else if month == 3 {
        59
    } else if month == 4 {
        90
    } else if month == 5 {
        120
    } else if month == 6 {
        151
    } else if month == 7 {
        181
    } else if month == 8 {
        212
    } else if month == 9 {
        243
    } else if month == 10 {
        273
    } else if month == 11 {
        304
    } else {
        334
    };
    if month > 2 && is_leap_year(year) {
        common + 1
    } else {
        common
    }
}

/// The day number of a calendar date, counted from 0001-01-01 as day 1: the
/// days of the years before it, leap days included, then the day of its year.
pub open spec fn days_from_ce(year: i32, month: u32, day: u32) -> int {
    let y = year as int - 1;
    365 * y + y / 4 - y / 100 + y / 400 + days_before_month(year as int, month as int) + day
}

/// Relies on chrono's `NaiveDate::from_ymd_opt`, which returns `None` exactly for
/// dates that do not exist or lie outside `MIN_YEAR..=MAX_YEAR`, and on
/// `Datelike::num_days_from_ce`, which numbers the date by the Gregorian count
/// that `days_from_ce` states.
#[verifier::external_body]
fn civil_day_number(year: i32, month: u32, day: u32) -> (r: Option<i32>)
    ensures
        r.is_some() == is_valid_date(year, month, day),
        r matches Some(n) ==> n == days_from_ce(year, month, day),
{
    chrono::NaiveDate::from_ymd_opt(year, month, day).map(|d| d.num_days_from_ce())
}

/// A calendar day, by its day number.
#[derive(Clone, Copy, Debug, PartialEq, Eq, Structural)]
pub struct Date {
    pub days_from_ce: i32,
}

impl Date {
    /// The date with the given day number.
    pub fn from_day_number(days_from_ce: i32) -> (r: Date)
        ensures
            r.days_from_ce == days_from_ce,
    {
        Date { days_from_ce }
    }

    /// The date `year-month-day`, or `None` where no such date exists.
    pub fn from_ymd(year: i32, month: u32, day: u32) -> (r: Option<Date>)
        ensures
            r.is_some() == is_valid_date(year, month, day),
            r matches Some(d) ==> d.days_from_ce == days_from_ce(year, month, day),
    {
        match civil_day_number(year, month, day) {
            Some(n) => Some(Date { days_from_ce: n }),
            None => None,
        }
    }
}

/// A wall-clock instant: a date and a second within it.
#[derive(Clone, Copy, Debug, PartialEq, Eq, Structural)]
pub struct Timestamp {
    date: Date,
    secs: u32,
}

impl Timestamp {
    #[verifier::type_invariant]
    spec fn within_day(self) -> bool {
        self.secs < SECONDS_PER_DAY
    }

    /// Day number of the instant's date.
    pub closed spec fn day_of(self) -> int {
        self.date.days_from_ce as int
    }

    /// Seconds elapsed since the midnight that starts the instant's date.
    pub closed spec fn second_of(self) -> int {
        self.secs as int
    }

    /// The instant as whole seconds on one scale.
    pub open spec fn instant(self) -> int {
        self.day_of() * SECONDS_PER_DAY + self.second_of()
    }

    /// `second_of_day` seconds after the midnight that starts `date`; `None`
    /// unless it falls within that day.
    pub fn from_day_seconds(date: Date, second_of_day: u32) -> (r: Option<Timestamp>)
        ensures
            r.is_some() == (second_of_day < SECONDS_PER_DAY),
            r matches Some(t) ==> t.day_of() == date.days_from_ce && t.second_of()
                == second_of_day,
    {
        if second_of_day < SECONDS_PER_DAY {
            Some(Timestamp { date, secs: second_of_day })
        } else {
            None
        }
    }

    /// `hour:minute:second` on `date`; `None` unless the hour is below 24 and
    /// the minute and second below 60.
    pub fn at(date: Date, hour: u32, minute: u32, second: u32) -> (r: Option<Timestamp>)
        ensures
            r.is_some() == (hour < 24 && minute < 60 && second < 60),
            r matches Some(t) ==> t.day_of() == date.days_from_ce && t.second_of() == hour
                * 3600 + minute * 60 + second,
    {
        if hour < 24 && minute < 60 && second < 60 {
            Some(Timestamp { date, secs: hour * 3600 + minute * 60 + second })
        } else {
            None
        }
    }

    /// The instant's date.
    pub fn date(&self) -> (r: Date)
        ensures
            r.days_from_ce == self.day_of(),
    {
        self.date
    }

    /// Seconds since the midnight that starts the instant's date.
    pub fn second_of_day(&self) -> (r: u32)
        ensures
            r == self.second_of(),
            r < SECONDS_PER_DAY,
    {
        proof {
            use_type_invariant(self);
        }
        self.secs
    }

    /// The instant as whole seconds, as `instant` gives it.
    pub fn instant_seconds(&self) -> (r: i64)
        ensures
            r == self.instant(),
    {
        self.date.days_from_ce as i64 * 86400 + self.secs as i64
    }

    /// Seconds from `self` to `end`; negative where `end` comes first.
    pub fn seconds_until(&self, end: &Timestamp) -> (r: i64)
        ensures
            r == end.instant() - self.instant(),
    {
        end.instant_seconds() - self.instant_seconds()
    }
}

/// Every instant lies well within 2^48 seconds of the scale's origin.
pub proof fn lemma_instant_bounds(t: Timestamp)
    ensures
        -0x1_0000_0000_0000 < t.instant() < 0x1_0000_0000_0000,
{
}

/// Relies on chrono's `Local::now` and `NaiveDateTime::date`/`time`, read back
/// through `num_days_from_ce` and `num_seconds_from_midnight` (below 86400 by
/// chrono's documentation). The value depends on the clock and the time zone.
#[verifier::external_body]
pub(crate) fn local_now() -> (r: Timestamp) {
    let t = chrono::Local::now().naive_local();
    Timestamp {
        date: Date { days_from_ce: t.date().num_days_from_ce() },
        secs: t.time().num_seconds_from_midnight(),
    }
}

} // verus!
