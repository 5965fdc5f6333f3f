//! Date arithmetic for the calendar face: weekday via Zeller's congruence,
//! day-of-year, and the display names of weekdays and months.

use vstd::prelude::*;

verus! {

/// Zeller's congruence, shifted so that 0 is Sunday. The month and year are
/// first moved to a March-based calendar (January and February count as
/// months 13 and 14 of the previous year).
pub open spec fn spec_day_of_week(year: int, month: int, day: int) -> int {
    let y = if month < 3 {
        year - 1
    } else {
        year
    };
    let m = if month < 3 {
        month + 12
    } else {
        month
    };
    let k = y % 100;
    let j = y / 100;
    (day + (13 * (m + 1)) / 5 + k + k / 4 + j / 4 + 5 * j + 6) % 7
}

/// Days in each month of a non-leap year; `month` is 1-based.
pub open spec fn spec_days_in_month(month: int) -> int {
    if month == 1 {
        31
    } else if month == 2 {
        28
    } else if month == 3 {
        31
    } else if month == 4 {
        30
    } else if month == 5 {
        31
    } else if month == 6 {
        30
    } else if month == 7 {
        31
    } else if month == 8 {
        31
    } else if month == 9 {
        30
    } else if month == 10 {
        31
    } else if month == 11 {
        30
    } else {
        31
    }
}

/// Whether a year is a leap year in the Gregorian calendar.
pub open spec fn spec_is_leap(year: int) -> bool {
    (year % 4 == 0 && year % 100 != 0) || year % 400 == 0
}

/// The day number within the year of the given date: the day of the month
/// plus the lengths of all preceding months.
pub open spec fn spec_day_of_year(month: int, day: int, year: int) -> int
    decreases month,
{
    if month <= 1 {
        day
    } else {
        spec_day_of_year(month - 1, day, year) + spec_days_in_month(month - 1) + if month - 1 == 2
            && spec_is_leap(year) {
            1int
        } else {
            0int
        }
    }
}

/// Calculates the day of the week (0 = Sunday) of a date.
pub fn calculate_day_of_week(year: u16, month: u16, day: u16) -> (r: u8)
    requires
        1 <= month <= 12,
        1 <= day <= 31,
        1 <= year <= 9999,
    ensures
        r == spec_day_of_week(year as int, month as int, day as int),
        r < 7,
{
    let (y, m): (u16, u16) = if month < 3 {
        (year - 1, month + 12)
    } else {
        (year, month)
    };

    let q = day;
    let k = y % 100;
    let j = y / 100;

    let h = (q + (13 * (m + 1)) / 5 + k + k / 4 + j / 4 + 5 * j + 6) % 7;
    h as u8
}

/// The length of a month in a non-leap year.
fn days_in_month(month: u16) -> (r: u16)
    requires
        1 <= month <= 12,
    ensures
        r == spec_days_in_month(month as int),
{
    match month {
        1 => 31,
        2 => 28,
        3 => 31,
        4 => 30,
        5 => 31,
        6 => 30,
        7 => 31,
        8 => 31,
        9 => 30,
        10 => 31,
        11 => 30,
        _ => 31,
    }
}

/// Calculates the day of the year (1-366) of a date.
pub fn day_of_year(month: u16, day: u16, year: u16) -> (r: u16)
    requires
        1 <= month <= 12,
        1 <= day <= 31,
    ensures
        r == spec_day_of_year(month as int, day as int, year as int),
{
    let is_leap = (year % 4 == 0 && year % 100 != 0) || year % 400 == 0;

    let mut days = day;
    let mut m: u16 = 1;
    while m < month
        invariant
            1 <= m <= month,
            month <= 12,
            day <= 31,
            days == spec_day_of_year(m as int, day as int, year as int),
            days <= 31 + 32 * m,
            is_leap == spec_is_leap(year as int),
        decreases month - m,
    {
        days = days + days_in_month(m);
        if m == 2 && is_leap {
            days = days + 1;
        }
        m = m + 1;
    }
    days
}

/// The display name of a weekday, 0 being Sunday.
pub fn day_of_week_name(day: u8) -> (r: &'static str)
    ensures
        day == 0 ==> r@ == "SUNDAY"@,
        day == 1 ==> r@ == "MONDAY"@,
        day == 2 ==> r@ == "TUESDAY"@,
        day == 3 ==> r@ == "WEDNESDAY"@,
        day == 4 ==> r@ == "THURSDAY"@,
        day == 5 ==> r@ == "FRIDAY"@,
        day == 6 ==> r@ == "SATURDAY"@,
        day > 6 ==> r@ == "UNKNOWN"@,
{
    match day {
        0 => "SUNDAY",
        1 => "MONDAY",
        2 => "TUESDAY",
        3 => "WEDNESDAY",
        4 => "THURSDAY",
        5 => "FRIDAY",
        6 => "SATURDAY",
        _ => "UNKNOWN",
    }
}

/// The display name of a month, 1 being January.
pub fn month_name(month: u16) -> (r: &'static str)
    ensures
        month == 1 ==> r@ == "JANUARY"@,
        month == 2 ==> r@ == "FEBRUARY"@,
        month == 3 ==> r@ == "MARCH"@,
        month == 4 ==> r@ == "APRIL"@,
        month == 5 ==> r@ == "MAY"@,
        month == 6 ==> r@ == "JUNE"@,
        month == 7 ==> r@ == "JULY"@,
        month == 8 ==> r@ == "AUGUST"@,
        month == 9 ==> r@ == "SEPTEMBER"@,
        month == 10 ==> r@ == "OCTOBER"@,
        month == 11 ==> r@ == "NOVEMBER"@,
        month == 12 ==> r@ == "DECEMBER"@,
        (month == 0 || month > 12) ==> r@ == "UNKNOWN"@,
{
    match month {
        1 => "JANUARY",
        2 => "FEBRUARY",
        3 => "MARCH",
        4 => "APRIL",
        5 => "MAY",
        6 => "JUNE",
        7 => "JULY",
        8 => "AUGUST",
        9 => "SEPTEMBER",
        10 => "OCTOBER",
        11 => "NOVEMBER",
        12 => "DECEMBER",
        _ => "UNKNOWN",
    }
}

} // verus!
