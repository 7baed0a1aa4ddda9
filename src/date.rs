use vstd::prelude::*;

use crate::error::HabitError;

verus! {

/// Smallest year chrono's `NaiveDate` accepts.
pub const MIN_YEAR: i32 = -262143;

/// Largest year chrono's `NaiveDate` accepts.
pub const MAX_YEAR: i32 = 262142;

/// Gregorian leap-year rule.
pub open spec fn is_leap_year(year: int) -> bool {
    (year % 4 == 0 && year % 100 != 0) || year % 400 == 0
}

/// Number of days in `month` (1 to 12) of `year`.
pub open spec fn month_length(year: int, month: int) -> int {
    if month == 2 {
        if is_leap_year(year) { 29 } else { 28 }
    } else if month == 4 || month == 6 || month == 9 || month == 11 {
        30
    } else {
        31
    }
}

/// A year, month and day that name a date chrono can represent.
pub open spec fn valid_ymd(year: int, month: int, day: int) -> bool {
    &&& MIN_YEAR <= year <= MAX_YEAR
    &&& 1 <= month <= 12
    &&& 1 <= day <= month_length(year, month)
}

/// chrono's day number of a valid date (January 1 of year 1 is day 1).
pub uninterp spec fn day_number_of(year: int, month: int, day: int) -> int;

/// chrono's weekday of a valid date, counted from Monday (0) to Sunday (6).
pub uninterp spec fn weekday_of(year: int, month: int, day: int) -> int;

/// Relies on chrono's `NaiveDate::from_ymd_opt`, which returns `None` exactly for
/// an invalid month or day or a year outside chrono's range; of the date it
/// returns, `Datelike::num_days_from_ce` gives the day number and
/// `Weekday::num_days_from_monday` of `Datelike::weekday` the weekday (0 to 6).
#[verifier::external_body]
fn chrono_date(year: i32, month: u32, day: u32) -> (r: Option<(i32, u32)>)
    ensures
        r.is_some() == valid_ymd(year as int, month as int, day as int),
        r matches Some(p) ==> p.0 as int == day_number_of(year as int, month as int, day as int)
            && p.1 < 7 && p.1 as int == weekday_of(year as int, month as int, day as int),
{
    match chrono::NaiveDate::from_ymd_opt(year, month, day) {
        Some(d) => Some((
            chrono::Datelike::num_days_from_ce(&d),
            chrono::Datelike::weekday(&d).num_days_from_monday(),
        )),
        None => None,
    }
}

/// Whether `year` is a leap year of the Gregorian calendar.
pub fn is_leap(year: i32) -> (r: bool)
    ensures
        r == is_leap_year(year as int),
{
    let by4 = year % 4 == 0;
    let by100 = year % 100 == 0;
    let by400 = year % 400 == 0;
    (by4 && !by100) || by400
}

/// Number of days in `month` of `year`, February of a leap year included.
pub fn days_in_month(year: i32, month: u32) -> (r: u32)
    requires
        1 <= month <= 12,
    ensures
        r as int == month_length(year as int, month as int),
        28 <= r <= 31,
{
    if month == 2 {
        if is_leap(year) { 29 } else { 28 }
    } else if month == 4 || month == 6 || month == 9 || month == 11 {
        30
    } else {
        31
    }
}

/// The weekday of a date, counted from Monday (0) to Sunday (6).
pub fn weekday_from_monday(year: i32, month: u32, day: u32) -> (r: Result<u32, HabitError>)
    ensures
        r is Ok <==> valid_ymd(year as int, month as int, day as int),
        r matches Ok(w) ==> w < 7 && w as int == weekday_of(year as int, month as int, day as int),
        r matches Err(e) ==> e == HabitError::InvalidDate,
{
    match chrono_date(year, month, day) {
        Some((_, w)) => Ok(w),
        None => Err(HabitError::InvalidDate),
    }
}

/// A calendar date, held as its day number: consecutive days have consecutive
/// numbers, and dates compare as their numbers do.
#[derive(Debug, Clone, Copy, PartialEq, Eq, Hash, Structural)]
pub struct CompletionDate {
    /// Day number (January 1 of year 1 is day 1).
    pub day: i32,
}

impl View for CompletionDate {
    type V = int;

    open spec fn view(&self) -> int {
        self.day as int
    }
}

impl CompletionDate {
    /// The date with the given year, month (1 to 12) and day of month; a date
    /// that does not exist, or lies outside chrono's range, is rejected.
    pub fn from_ymd(year: i32, month: u32, day: u32) -> (r: Result<CompletionDate, HabitError>)
        ensures
            r is Ok <==> valid_ymd(year as int, month as int, day as int),
            r matches Ok(d) ==> d@ == day_number_of(year as int, month as int, day as int),
            r matches Err(e) ==> e == HabitError::InvalidDate,
    {
        match chrono_date(year, month, day) {
            Some((n, _)) => Ok(CompletionDate { day: n }),
            None => Err(HabitError::InvalidDate),
        }
    }

    /// The day number of this date (January 1 of year 1 is day 1).
    pub fn day_number(&self) -> (r: i32)
        ensures
            r as int == self@,
    {
        self.day
    }
}

} // verus!
