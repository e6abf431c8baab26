//! Trusted access to the time-zone database of the `chrono-tz` crate and to
//! the machine's local zone through `chrono`.  Every function here is a
//! wrapper whose contract Verus believes; the rest of the crate is verified
//! against these contracts.

use vstd::prelude::*;
use std::str::FromStr;
use chrono::Datelike;
use chrono::TimeZone;
use chrono::Timelike;
use crate::calendar::spec_civil_timestamp;
use crate::model::MAX_CALENDAR_YEAR;
use crate::model::MIN_CALENDAR_YEAR;

verus! {

/// Relies on chrono_tz's `TZ_VARIANTS` array and `Tz::name`: the canonical
/// names of every zone the database knows, in enumeration order.  The array
/// is a non-empty compile-time constant.
#[verifier::external_body]
pub fn catalog_names() -> (r: Vec<String>)
    ensures
        r@.len() > 0,
{
    chrono_tz::TZ_VARIANTS.iter().map(|t| t.name().to_string()).collect()
}

/// What the zone database yields as the absolute instant (UNIX timestamp)
/// for wall-clock figures read in a named zone, or nothing when the name is
/// unknown, the figures name no calendar date, or the zone skips them: a
/// function of the name and the figures alone.
pub uninterp spec fn tz_instant_of(
    zone: Seq<char>,
    y: int,
    mo: int,
    d: int,
    h: int,
    mi: int,
    s: int,
) -> Option<int>;

/// Relies on chrono_tz's `Tz::from_str` (zone lookup by canonical name) and
/// chrono's `TimeZone::with_ymd_and_hms` (the instant carrying those
/// wall-clock figures in the zone; the earlier one when a fold repeats
/// them) and `DateTime::timestamp`.  The zone database is compiled into the
/// crate, so the result depends on the arguments alone.
#[verifier::external_body]
pub(crate) fn tz_instant(
    zone: &str,
    year: i32,
    month: u32,
    day: u32,
    hour: u32,
    minute: u32,
    second: u32,
) -> (r: Option<i64>)
    ensures
        match r {
            Some(t) => tz_instant_of(
                zone@,
                year as int,
                month as int,
                day as int,
                hour as int,
                minute as int,
                second as int,
            ) == Some(t as int),
            None => tz_instant_of(
                zone@,
                year as int,
                month as int,
                day as int,
                hour as int,
                minute as int,
                second as int,
            ) is None,
        },
{
    let tz = match chrono_tz::Tz::from_str(zone) {
        Ok(t) => t,
        Err(_) => return None,
    };
    tz.with_ymd_and_hms(year, month, day, hour, minute, second).earliest().map(|dt| dt.timestamp())
}

/// What the zone database yields as the wall-clock reading of an absolute
/// instant in a named zone — year, day of year from 0, day of month, hour,
/// minute, second — or nothing when the name is unknown or the timestamp is
/// out of range: a function of the name and the timestamp alone.
pub uninterp spec fn zone_civil_of(zone: Seq<char>, t: int) -> Option<(int, int, int, int, int, int)>;

/// Relies on chrono_tz's `Tz::from_str`, chrono's `TimeZone::timestamp_opt`
/// (the UTC reading of a timestamp, `None` only when out of range) and
/// `DateTime::with_timezone`, with the `Datelike` and `Timelike` accessors
/// whose documented ranges are repeated here.  The zone database is
/// compiled into the crate, so the result depends on the arguments alone.
///
/// The year bound allows one year beyond the calendar range on each side:
/// for an instant at the very edge of the representable range, a zone east
/// or west of UTC reads chrono's internal overflow dates, whose year lies
/// one past `MAX_YEAR` or `MIN_YEAR`.
#[verifier::external_body]
pub(crate) fn zone_civil(zone: &str, t: i64) -> (r: Option<(i32, u32, u32, u32, u32, u32)>)
    ensures
        match r {
            Some(c) => {
                &&& zone_civil_of(zone@, t as int) == Some(
                    (c.0 as int, c.1 as int, c.2 as int, c.3 as int, c.4 as int, c.5 as int),
                )
                &&& MIN_CALENDAR_YEAR - 1 <= c.0 <= MAX_CALENDAR_YEAR + 1
                &&& c.1 <= 365
                &&& 1 <= c.2 <= 31
                &&& c.3 <= 23
                &&& c.4 <= 59
                &&& c.5 <= 59
            },
            None => zone_civil_of(zone@, t as int) is None,
        },
{
    let tz = match chrono_tz::Tz::from_str(zone) {
        Ok(z) => z,
        Err(_) => return None,
    };
    let utc = match chrono::Utc.timestamp_opt(t, 0) {
        chrono::offset::MappedLocalTime::Single(dt) => dt,
        _ => return None,
    };
    let dt = utc.with_timezone(&tz);
    Some((dt.year(), dt.ordinal0(), dt.day(), dt.hour(), dt.minute(), dt.second()))
}

/// Relies on chrono's `Local::with_ymd_and_hms` (the instant carrying those
/// wall-clock figures in the machine's configured zone; the earlier one
/// when a fold repeats them) and `DateTime::timestamp`.  The result depends
/// on the machine's zone, so only this is stated: chrono bounds every UTC
/// offset to less than one day, so the timestamp differs from the naive
/// timestamp of the figures by less than a day.
#[verifier::external_body]
pub(crate) fn local_instant(
    year: i32,
    month: u32,
    day: u32,
    hour: u32,
    minute: u32,
    second: u32,
) -> (r: Option<i64>)
    ensures
        r matches Some(t) ==> {
            let civil = spec_civil_timestamp(
                year as int,
                month as int,
                day as int,
                hour as int,
                minute as int,
                second as int,
            );
            civil - 86400 < t as int && (t as int) < civil + 86400
        },
{
    chrono::offset::Local
        .with_ymd_and_hms(year, month, day, hour, minute, second)
        .earliest()
        .map(|dt| dt.timestamp())
}

} // verus!
