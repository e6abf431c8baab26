//! Multi-time-zone clock library.
//!
//! The library resolves a free-form time-of-day text to a concrete instant,
//! projects that instant into every zone of a user-maintained list, and
//! renders the projection in one of several output encodings.  All time-zone
//! database work is delegated to the `chrono` and `chrono-tz` crates through
//! a small set of trusted wrappers; everything around those calls is verified.

pub mod calendar;
pub mod chars;
pub mod config;
pub mod jsonparse;
pub mod laws;
pub mod lookup;
pub mod model;
pub mod numfmt;
pub mod parse;
pub mod pipeline;
pub mod project;
pub mod render;
pub mod resolve;
pub mod tzdb;

pub use calendar::convert_date_to_timestamp;
pub use config::add_nick_to_timezone;
pub use config::add_sep_to_timezone;
pub use config::add_timezone;
pub use config::defines_from_v0;
pub use config::defines_from_v1;
pub use config::get_nick_string;
pub use config::remove_timezone;
pub use config::saved_list_contains_timezone;
pub use lookup::lookup_zone;
pub use model::CurTime;
pub use model::CurTimeKind;
pub use model::LocalNow;
pub use model::OutputFormat;
pub use model::OutputTime;
pub use model::SavedDefines;
pub use model::SavedTimezones;
pub use model::TimeParseError;
pub use model::ZoneError;
pub use pipeline::render_time;
pub use project::project;
pub use render::format_defines_list;
pub use render::render;
pub use resolve::get_comparison_date_time;
pub use resolve::get_unix_timestamp;
pub use resolve::tz_offset_from_local_time;
pub use tzdb::catalog_names;
