//! The data model: the saved-zone list, the resolved instant, the projected
//! rows, the output formats and the error kinds.

use vstd::prelude::*;

verus! {

/// One entry of the saved-zone list: a canonical zone name, an optional
/// user-facing nickname, and a flag that asks for a divider after the entry
/// in human-readable output.
pub struct SavedTimezones {
    pub timezone_name: String,
    pub nickname: Option<String>,
    pub separator: bool,
}

/// The mathematical value of a [`SavedTimezones`] entry.
pub struct SavedTimezoneView {
    pub timezone_name: Seq<char>,
    pub nickname: Option<Seq<char>>,
    pub separator: bool,
}

impl View for SavedTimezones {
    type V = SavedTimezoneView;

    open spec fn view(&self) -> SavedTimezoneView {
        SavedTimezoneView {
            timezone_name: self.timezone_name@,
            nickname: match self.nickname {
                Some(n) => Some(n@),
                None => None,
            },
            separator: self.separator,
        }
    }
}

/// The saved-zone list as a whole: a schema version and the entries in
/// insertion order.  The list is meant to be unique by zone name; the add
/// operation preserves that.
pub struct SavedDefines {
    pub version: u8,
    pub timezones: Vec<SavedTimezones>,
}

/// The mathematical value of a [`SavedDefines`] list.
pub struct SavedDefinesView {
    pub version: u8,
    pub timezones: Seq<SavedTimezoneView>,
}

impl View for SavedDefines {
    type V = SavedDefinesView;

    open spec fn view(&self) -> SavedDefinesView {
        SavedDefinesView {
            version: self.version,
            timezones: self.timezones@.map_values(|t: SavedTimezones| t@),
        }
    }
}

pub const CURRENT_DEFINES_VERSION: u8 = 2;

impl Default for SavedDefines {
    /// An empty list at the current schema version.
    fn default() -> (r: SavedDefines)
        ensures
            r.version == CURRENT_DEFINES_VERSION,
            r.timezones@.len() == 0,
    {
        SavedDefines { version: CURRENT_DEFINES_VERSION, timezones: Vec::new() }
    }
}

/// Whether a resolved instant was anchored to the machine's local zone or to
/// an explicitly named zone.
#[derive(PartialEq, Eq, Structural, Clone, Copy, Debug)]
pub enum CurTimeKind {
    Local,
    Tz,
}

/// A snapshot of the invoking process's current local wall-clock time, read
/// once at entry and passed to the core as a plain value.
#[derive(Clone, Copy, Debug)]
pub struct LocalNow {
    pub year: i32,
    pub month: u8,
    pub day: u8,
    pub hour: u8,
    pub minute: u8,
    pub second: u8,
}

/// The year range that the calendar arithmetic of this crate is proved for;
/// it covers every date the `chrono` crate can represent.
pub const MIN_CALENDAR_YEAR: i32 = -262143;

pub const MAX_CALENDAR_YEAR: i32 = 262142;

impl LocalNow {
    /// Field ranges of a well-formed calendar date and time of day.
    pub open spec fn well_formed(&self) -> bool {
        &&& MIN_CALENDAR_YEAR <= self.year <= MAX_CALENDAR_YEAR
        &&& 1 <= self.month <= 12
        &&& 1 <= self.day <= 31
        &&& self.hour <= 23
        &&& self.minute <= 59
        &&& self.second <= 59
    }

    /// Builds a snapshot after checking every field range.
    pub fn new(year: i32, month: u8, day: u8, hour: u8, minute: u8, second: u8) -> (r: Option<
        LocalNow,
    >)
        ensures
            match r {
                Some(n) => {
                    &&& n.well_formed()
                    &&& n == (LocalNow { year, month, day, hour, minute, second })
                },
                None => !(LocalNow { year, month, day, hour, minute, second }).well_formed(),
            },
    {
        if MIN_CALENDAR_YEAR <= year && year <= MAX_CALENDAR_YEAR && 1 <= month && month <= 12
            && 1 <= day && day <= 31 && hour <= 23 && minute <= 59 && second <= 59 {
            Some(LocalNow { year, month, day, hour, minute, second })
        } else {
            None
        }
    }
}

/// The output of the time resolver: a concrete instant together with the
/// wall-clock figures it was resolved from and the zone they were read in.
///
/// `epoch_seconds` is the absolute UNIX timestamp of the instant.  The civil
/// fields hold the anchor's own calendar date (always today's local date) and
/// the resolved time of day as read in the anchor zone.
pub struct CurTime {
    pub kind: CurTimeKind,
    /// The anchor zone's canonical name; present exactly when `kind` is `Tz`.
    pub zone_name: Option<String>,
    pub year: i32,
    pub month: u8,
    pub day: u8,
    /// Day of year starting from 0, of the anchor's calendar date.
    pub ordinal0: u16,
    pub hour: u8,
    pub minute: u8,
    pub second: u8,
    pub epoch_seconds: i64,
}

impl CurTime {
    /// Field ranges, and the tie between the kind tag and the zone name.
    pub open spec fn well_formed(&self) -> bool {
        &&& MIN_CALENDAR_YEAR <= self.year <= MAX_CALENDAR_YEAR
        &&& 1 <= self.month <= 12
        &&& 1 <= self.day <= 31
        &&& self.ordinal0 <= 365
        &&& self.hour <= 23
        &&& self.minute <= 59
        &&& self.second <= 59
        &&& (self.kind == CurTimeKind::Tz <==> self.zone_name is Some)
    }
}

/// One projected row: the anchor instant as seen from one saved zone.
pub struct OutputTime {
    pub timezone_name: String,
    pub timezone_nickname: Option<String>,
    pub displayed_name: String,
    pub day_offset: u32,
    pub day_offset_str: String,
    pub timestamp: i64,
    pub timestring: String,
    pub separator: bool,
}

/// The mathematical value of an [`OutputTime`] row.
pub struct OutputTimeView {
    pub timezone_name: Seq<char>,
    pub timezone_nickname: Option<Seq<char>>,
    pub displayed_name: Seq<char>,
    pub day_offset: u32,
    pub day_offset_str: Seq<char>,
    pub timestamp: i64,
    pub timestring: Seq<char>,
    pub separator: bool,
}

impl View for OutputTime {
    type V = OutputTimeView;

    open spec fn view(&self) -> OutputTimeView {
        OutputTimeView {
            timezone_name: self.timezone_name@,
            timezone_nickname: match self.timezone_nickname {
                Some(n) => Some(n@),
                None => None,
            },
            displayed_name: self.displayed_name@,
            day_offset: self.day_offset,
            day_offset_str: self.day_offset_str@,
            timestamp: self.timestamp,
            timestring: self.timestring@,
            separator: self.separator,
        }
    }
}

/// The sequence of row values of a row vector.
pub open spec fn rows_view(rows: Seq<OutputTime>) -> Seq<OutputTimeView> {
    rows.map_values(|r: OutputTime| r@)
}

/// The character sequence of an optional text.
pub open spec fn opt_text(o: Option<String>) -> Option<Seq<char>> {
    match o {
        Some(s) => Some(s@),
        None => None,
    }
}

/// The four output encodings of the renderer.
#[derive(PartialEq, Eq, Structural, Clone, Copy, Debug)]
pub enum OutputFormat {
    Pretty,
    Csv,
    Json,
    JsonPretty,
}

/// A non-empty time text did not match any accepted pattern, or the resolved
/// wall-clock figures name no representable instant in the anchor zone.
#[derive(PartialEq, Eq, Structural, Clone, Copy, Debug)]
pub struct TimeParseError;

/// A failure of one of the saved-zone list operations.
#[derive(PartialEq, Eq, Structural, Clone, Copy, Debug)]
pub enum ZoneError {
    /// The query matches no zone of the catalog.
    ZoneNotFound,
    /// The zone to add is already on the list.
    ZoneAlreadyListed,
    /// The zone to change is not on the list.
    ZoneNotInList,
}

} // verus!
