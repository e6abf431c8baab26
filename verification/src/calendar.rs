//! Calendar arithmetic: the simplified day index used for day-offset labels,
//! and the naive UNIX timestamp of a projected wall-clock reading.

use vstd::prelude::*;
use crate::model::MAX_CALENDAR_YEAR;
use crate::model::MIN_CALENDAR_YEAR;

verus! {

/// The deliberately approximate day count behind the day-offset labels:
/// the day of year plus 365 days for every year since 1970, ignoring leap
/// years, truncated to 32 bits as two's-complement arithmetic would
/// truncate it.
pub open spec fn spec_day_index(year: int, ordinal: int) -> int {
    (ordinal + (year - 1970) * 365) % 0x1_0000_0000
}

/// Computes the approximate day index of a date given as year and day of
/// year (starting from 0).  The year range allows one year beyond the
/// calendar range on each side, for the overflow readings a zone can give
/// at the very edge of the representable range.
pub fn convert_date_to_timestamp(year: i32, ordinal: u32) -> (r: u32)
    requires
        MIN_CALENDAR_YEAR - 1 <= year <= MAX_CALENDAR_YEAR + 1,
        ordinal <= 365,
    ensures
        r as int == spec_day_index(year as int, ordinal as int),
{
    let v: i64 = ordinal as i64 + (year as i64 - 1970) * 365;
    let m: i64 = v.checked_rem_euclid(0x1_0000_0000).unwrap();
    m as u32
}

/// Days from the UNIX epoch to January 1 of `y` in the proleptic Gregorian
/// calendar.
pub open spec fn spec_epoch_days_of_year(y: int) -> int {
    365 * (y - 1) + (y - 1) / 4 - (y - 1) / 100 + (y - 1) / 400 - 719162
}

/// Seconds from the UNIX epoch to the given wall-clock reading taken as if
/// it were UTC: the "naive" timestamp used as a sort key and display value.
pub open spec fn spec_naive_timestamp(y: int, ordinal0: int, h: int, mi: int, s: int) -> int {
    (spec_epoch_days_of_year(y) + ordinal0) * 86400 + h * 3600 + mi * 60 + s
}

/// Computes the naive timestamp of a wall-clock reading given as year, day
/// of year (starting from 0) and time of day.  The year range allows one
/// year beyond the calendar range on each side, for the overflow readings
/// a zone can give at the very edge of the representable range.
pub fn naive_timestamp(year: i32, ordinal0: u32, hour: u32, minute: u32, second: u32) -> (r: i64)
    requires
        MIN_CALENDAR_YEAR - 1 <= year <= MAX_CALENDAR_YEAR + 1,
        ordinal0 <= 365,
        hour <= 23,
        minute <= 59,
        second <= 59,
    ensures
        r as int == spec_naive_timestamp(
            year as int,
            ordinal0 as int,
            hour as int,
            minute as int,
            second as int,
        ),
{
    let ym1: i64 = year as i64 - 1;
    let q4: i64 = ym1.checked_div_euclid(4).unwrap();
    let q100: i64 = ym1.checked_div_euclid(100).unwrap();
    let q400: i64 = ym1.checked_div_euclid(400).unwrap();
    let days: i64 = 365 * ym1 + q4 - q100 + q400 - 719162 + ordinal0 as i64;
    days * 86400 + hour as i64 * 3600 + minute as i64 * 60 + second as i64
}

/// Whether `y` is a leap year in the proleptic Gregorian calendar.
pub open spec fn spec_is_leap(y: int) -> bool {
    (y % 4 == 0 && y % 100 != 0) || y % 400 == 0
}

/// Decides whether a year is a leap year.
pub fn is_leap_year(year: i32) -> (r: bool)
    ensures
        r == spec_is_leap(year as int),
{
    let r4: i32 = year.checked_rem_euclid(4).unwrap();
    let r100: i32 = year.checked_rem_euclid(100).unwrap();
    let r400: i32 = year.checked_rem_euclid(400).unwrap();
    (r4 == 0 && r100 != 0) || r400 == 0
}

/// Days before the first of `month` in a year, counting a leap day for
/// months after February of a leap year.
pub open spec fn spec_days_before_month(month: int, leap: bool) -> int {
    let base: int = if month == 1 {
        0
    } else if month == 2 {
        31
    } else if month == 3 {
        59
    } else if month == 4 {
        90
    } else if month == 5 {
        120
    } else if month == 6 {
        151
    } else if month == 7 {
        181
    } else if month == 8 {
        212
    } else if month == 9 {
        243
    } else if month == 10 {
        273
    } else if month == 11 {
        304
    } else {
        334
    };
    base + if leap && month > 2 {
        1int
    } else {
        0int
    }
}

/// The day of year (starting from 0) of a calendar date.
pub open spec fn spec_ordinal0_of(y: int, mo: int, d: int) -> int {
    spec_days_before_month(mo, spec_is_leap(y)) + d - 1
}

/// Computes the day of year (starting from 0) of a calendar date.
pub fn ordinal0_of(year: i32, month: u8, day: u8) -> (r: u16)
    requires
        1 <= month <= 12,
        1 <= day <= 31,
    ensures
        r as int == spec_ordinal0_of(year as int, month as int, day as int),
        r <= 365,
{
    let leap = is_leap_year(year);
    let base: u16 = if month == 1 {
        0
    } else if month == 2 {
        31
    } else if month == 3 {
        59
    } else if month == 4 {
        90
    } else if month == 5 {
        120
    } else if month == 6 {
        151
    } else if month == 7 {
        181
    } else if month == 8 {
        212
    } else if month == 9 {
        243
    } else if month == 10 {
        273
    } else if month == 11 {
        304
    } else {
        334
    };
    let adj: u16 = if leap && month > 2 {
        1
    } else {
        0
    };
    base + adj + day as u16 - 1
}

/// The naive timestamp of a full calendar date and time of day.
pub open spec fn spec_civil_timestamp(y: int, mo: int, d: int, h: int, mi: int, s: int) -> int {
    spec_naive_timestamp(y, spec_ordinal0_of(y, mo, d), h, mi, s)
}

} // verus!
