//! The time resolver: a time text and an optional anchor zone become a
//! concrete instant, anchored to today's local calendar date.

use vstd::prelude::*;
use crate::calendar::ordinal0_of;
use crate::calendar::spec_civil_timestamp;
use crate::calendar::spec_ordinal0_of;
use crate::model::CurTime;
use crate::model::CurTimeKind;
use crate::model::LocalNow;
use crate::model::opt_text;
use crate::model::TimeParseError;
use crate::parse::SpecTimeText;
use crate::parse::TimeTextParse;
use crate::parse::parse_time_text;
use crate::parse::spec_parse_time_text;
use crate::tzdb::local_instant;
use crate::tzdb::tz_instant;
use crate::tzdb::tz_instant_of;
use crate::tzdb::zone_civil;
use crate::tzdb::zone_civil_of;

verus! {

/// What a possibly missing time text means: a missing text falls back to
/// the current time, a present one follows the grammar.
pub open spec fn spec_time_option(t: Option<Seq<char>>) -> SpecTimeText {
    match t {
        Some(s) => spec_parse_time_text(s),
        None => SpecTimeText::Fallback,
    }
}

/// The figures are the zone's reading of an instant within a day of the
/// given naive civil timestamp: what the machine's zone, whose UTC offset
/// is below a day, can turn that wall-clock reading into.
pub open spec fn zone_reading_near(zone: Seq<char>, civil: int, h: int, mi: int, s: int) -> bool {
    exists|t: int|
        {
            &&& civil - 86400 < t
            &&& t < civil + 86400
            &&& #[trigger] zone_civil_of(zone, t) matches Some(c2) && c2.3 == h && c2.4 == mi
                && c2.5 == s
        }
}

/// The wall-clock reading of the current local time as seen from an
/// optional named zone: unchanged without a zone; with a zone, the local
/// figures are pinned to today's date, turned into an instant by the
/// machine's zone and read back in the named zone.
///
/// Without a zone the reading is returned unchanged.  With a zone the
/// result is the zone's reading of an instant within a day of the naive
/// timestamp of today's date with the given figures; `None` when the
/// machine's zone skips the figures or the zone is unknown.
pub fn tz_offset_from_local_time(
    hour: u8,
    minute: u8,
    second: u8,
    now: &LocalNow,
    tz: Option<&String>,
) -> (r: Option<(u8, u8, u8)>)
    requires
        now.well_formed(),
        hour <= 23,
        minute <= 59,
        second <= 59,
    ensures
        tz is None ==> r == Some((hour, minute, second)),
        match r {
            Some(c) => {
                &&& c.0 <= 23
                &&& c.1 <= 59
                &&& c.2 <= 59
                &&& match tz {
                    Some(z) => zone_reading_near(
                        z@,
                        spec_civil_timestamp(
                            now.year as int,
                            now.month as int,
                            now.day as int,
                            hour as int,
                            minute as int,
                            second as int,
                        ),
                        c.0 as int,
                        c.1 as int,
                        c.2 as int,
                    ),
                    None => true,
                }
            },
            None => tz is Some,
        },
{
    match tz {
        Some(z) => {
            let t = match local_instant(
                now.year,
                now.month as u32,
                now.day as u32,
                hour as u32,
                minute as u32,
                second as u32,
            ) {
                Some(t) => t,
                None => {
                    return None;
                },
            };
            match zone_civil(z.as_str(), t) {
                Some(c) => Some((c.3 as u8, c.4 as u8, c.5 as u8)),
                None => None,
            }
        },
        None => Some((hour, minute, second)),
    }
}

/// The resolved wall-clock figures of a time text: the parsed figures, or
/// for a fall-back the current local time as seen from the anchor zone.
/// `None` when the text is invalid or no instant carries the figures.
fn resolve_figures(
    time_option: &Option<String>,
    tz: &Option<String>,
    now: &LocalNow,
) -> (r: Option<(u8, u8, u8)>)
    requires
        now.well_formed(),
    ensures
        match r {
            Some(c) => {
                &&& c.0 <= 23
                &&& c.1 <= 59
                &&& c.2 <= 59
                &&& !(spec_time_option(opt_text(*time_option)) is Invalid)
                &&& match spec_time_option(opt_text(*time_option)) {
                    SpecTimeText::Explicit(h, mi, s) => c.0 == h && c.1 == mi && c.2 == s,
                    SpecTimeText::Fallback => match tz {
                        None => c.0 == now.hour && c.1 == now.minute && c.2 == now.second,
                        Some(z) => zone_reading_near(
                            z@,
                            spec_civil_timestamp(
                                now.year as int,
                                now.month as int,
                                now.day as int,
                                now.hour as int,
                                now.minute as int,
                                now.second as int,
                            ),
                            c.0 as int,
                            c.1 as int,
                            c.2 as int,
                        ),
                    },
                    SpecTimeText::Invalid => false,
                }
            },
            None => spec_time_option(opt_text(*time_option)) matches SpecTimeText::Invalid
                || spec_time_option(opt_text(*time_option)) matches SpecTimeText::Fallback,
        },
{
    let parsed = match time_option {
        Some(t) => parse_time_text(t.as_str()),
        None => TimeTextParse::Fallback,
    };
    match parsed {
        TimeTextParse::Explicit(h, mi, s) => Some((h, mi, s)),
        TimeTextParse::Fallback => tz_offset_from_local_time(
            now.hour,
            now.minute,
            now.second,
            now,
            tz.as_ref(),
        ),
        TimeTextParse::Invalid => None,
    }
}

/// What holds of a successfully resolved instant, over the views of the
/// time text and the anchor zone name: the anchor date is today's, the
/// kind tag follows the anchor, the figures follow the grammar, and the
/// instant carries the figures — exactly the zone database's answer with
/// an anchor zone, within a day of the naive reading without one.
pub open spec fn resolved_instant_ok(
    time: Option<Seq<char>>,
    tz: Option<Seq<char>>,
    now: LocalNow,
    ct: CurTime,
) -> bool {
    &&& ct.well_formed()
    &&& ct.year == now.year
    &&& ct.month == now.month
    &&& ct.day == now.day
    &&& ct.ordinal0 as int == spec_ordinal0_of(now.year as int, now.month as int, now.day as int)
    &&& (ct.kind == CurTimeKind::Tz <==> tz is Some)
    &&& match (ct.zone_name, tz) {
        (Some(a), Some(b)) => a@ == b,
        (None, None) => true,
        _ => false,
    }
    &&& match spec_time_option(time) {
        SpecTimeText::Explicit(h, mi, s) => ct.hour == h && ct.minute == mi && ct.second == s,
        SpecTimeText::Fallback => match tz {
            None => ct.hour == now.hour && ct.minute == now.minute && ct.second == now.second,
            Some(z) => zone_reading_near(
                z,
                spec_civil_timestamp(
                    now.year as int,
                    now.month as int,
                    now.day as int,
                    now.hour as int,
                    now.minute as int,
                    now.second as int,
                ),
                ct.hour as int,
                ct.minute as int,
                ct.second as int,
            ),
        },
        SpecTimeText::Invalid => false,
    }
    &&& match tz {
        Some(z) => tz_instant_of(
            z,
            now.year as int,
            now.month as int,
            now.day as int,
            ct.hour as int,
            ct.minute as int,
            ct.second as int,
        ) == Some(ct.epoch_seconds as int),
        None => {
            let civil = spec_civil_timestamp(
                now.year as int,
                now.month as int,
                now.day as int,
                ct.hour as int,
                ct.minute as int,
                ct.second as int,
            );
            civil - 86400 < ct.epoch_seconds as int && (ct.epoch_seconds as int) < civil + 86400
        },
    }
}

/// Resolves a time text and an optional anchor zone to an instant.
///
/// The figures are always combined with today's local calendar date.  With
/// an anchor zone they are read as wall-clock time in that zone; without
/// one, in the machine's local zone.  An invalid text is an error; so is a
/// reading that no instant carries.
pub fn get_comparison_date_time(
    time_option: Option<String>,
    tz: Option<String>,
    now: &LocalNow,
) -> (r: Result<CurTime, TimeParseError>)
    requires
        now.well_formed(),
    ensures
        spec_time_option(opt_text(time_option)) is Invalid ==> r is Err,
        match r {
            Ok(ct) => resolved_instant_ok(opt_text(time_option), opt_text(tz), *now, ct),
            Err(_) => true,
        },
        // when the text parses and a zone anchors it, the zone database alone
        // decides success
        (match (spec_time_option(opt_text(time_option)), tz) {
            (SpecTimeText::Explicit(h, mi, s), Some(z)) => r is Ok <==> tz_instant_of(
                z@,
                now.year as int,
                now.month as int,
                now.day as int,
                h,
                mi,
                s,
            ) is Some,
            _ => true,
        }),
{
    let figures = match resolve_figures(&time_option, &tz, now) {
        Some(c) => c,
        None => {
            return Err(TimeParseError);
        },
    };
    let (hour, minute, second) = figures;
    let ordinal0 = ordinal0_of(now.year, now.month, now.day);
    match tz {
        Some(z) => {
            match tz_instant(
                z.as_str(),
                now.year,
                now.month as u32,
                now.day as u32,
                hour as u32,
                minute as u32,
                second as u32,
            ) {
                Some(t) => Ok(
                    CurTime {
                        kind: CurTimeKind::Tz,
                        zone_name: Some(z),
                        year: now.year,
                        month: now.month,
                        day: now.day,
                        ordinal0,
                        hour,
                        minute,
                        second,
                        epoch_seconds: t,
                    },
                ),
                None => Err(TimeParseError),
            }
        },
        None => {
            match local_instant(
                now.year,
                now.month as u32,
                now.day as u32,
                hour as u32,
                minute as u32,
                second as u32,
            ) {
                Some(t) => Ok(
                    CurTime {
                        kind: CurTimeKind::Local,
                        zone_name: None,
                        year: now.year,
                        month: now.month,
                        day: now.day,
                        ordinal0,
                        hour,
                        minute,
                        second,
                        epoch_seconds: t,
                    },
                ),
                None => Err(TimeParseError),
            }
        },
    }
}

/// The UNIX timestamp of a resolved time text, read in the machine's local
/// zone on today's date.
pub fn get_unix_timestamp(time: Option<String>, now: &LocalNow) -> (r: Result<
    i64,
    TimeParseError,
>)
    requires
        now.well_formed(),
    ensures
        spec_time_option(opt_text(time)) is Invalid ==> r is Err,
        match r {
            Ok(t) => match spec_time_option(opt_text(time)) {
                SpecTimeText::Explicit(h, mi, s) => {
                    let civil = spec_civil_timestamp(
                        now.year as int,
                        now.month as int,
                        now.day as int,
                        h,
                        mi,
                        s,
                    );
                    civil - 86400 < t as int && (t as int) < civil + 86400
                },
                SpecTimeText::Fallback => {
                    let civil = spec_civil_timestamp(
                        now.year as int,
                        now.month as int,
                        now.day as int,
                        now.hour as int,
                        now.minute as int,
                        now.second as int,
                    );
                    civil - 86400 < t as int && (t as int) < civil + 86400
                },
                SpecTimeText::Invalid => false,
            },
            Err(_) => true,
        },
{
    match get_comparison_date_time(time, None, now) {
        Ok(ct) => Ok(ct.epoch_seconds),
        Err(e) => Err(e),
    }
}

} // verus!
