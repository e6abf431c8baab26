//! The renderer: a projected row list becomes one output string in one of
//! four encodings — aligned text, CSV, compact JSON or indented JSON.  The
//! JSON encodings are framed by the library itself, character by character,
//! so their exact shape is part of the contract.

use vstd::prelude::*;
use crate::chars::push_char;
use crate::model::CurTime;
use crate::model::OutputFormat;
use crate::model::OutputTime;
use crate::model::OutputTimeView;
use crate::model::SavedDefines;
use crate::model::rows_view;
use crate::numfmt::dec_digits;
use crate::numfmt::dec_int;
use crate::numfmt::i64_to_dec;
use crate::numfmt::spec_timestring;
use crate::numfmt::u64_to_dec;

verus! {

/// `n` spaces.
pub open spec fn spec_spaces(n: int) -> Seq<char>
    decreases n,
{
    if n <= 0 {
        Seq::empty()
    } else {
        spec_spaces(n - 1).push(' ')
    }
}

/// The text left-padded with spaces to at least 25 characters.
pub open spec fn spec_pad25(s: Seq<char>) -> Seq<char> {
    if s.len() >= 25 {
        s
    } else {
        s + spec_spaces(25 - s.len())
    }
}

/// Pads text with spaces to at least 25 characters.
pub fn pad25(s: &String) -> (r: String)
    ensures
        r@ == spec_pad25(s@),
{
    let mut out = s.clone();
    let len = s.unicode_len();
    if len >= 25 {
        return out;
    }
    let mut k = len;
    while k < 25
        invariant
            len == s@.len(),
            len <= k <= 25,
            out@ == s@ + spec_spaces(k - len),
        decreases 25 - k,
    {
        push_char(&mut out, ' ');
        k += 1;
        proof {
            assert(out@ =~= s@ + spec_spaces(k - len));
        }
    }
    out
}

/// One row of the aligned text encoding: padded display name, wall-clock
/// time, offset label, and a dashed divider after a separator row.
pub open spec fn spec_pretty_row(row: OutputTimeView) -> Seq<char> {
    spec_pad25(row.displayed_name) + seq![' '] + row.timestring + seq![' '] + row.day_offset_str
        + seq!['\n'] + if row.separator {
        "----------------------------------\n"@
    } else {
        Seq::empty()
    }
}

/// The rows of the aligned text encoding, in order.
pub open spec fn spec_pretty_rows(rows: Seq<OutputTimeView>) -> Seq<char>
    decreases rows.len(),
{
    if rows.len() == 0 {
        Seq::empty()
    } else {
        spec_pretty_rows(rows.drop_last()) + spec_pretty_row(rows.last())
    }
}

/// The header line of the aligned text encoding: the anchor label padded,
/// then the anchor's wall-clock time, then a blank line.
pub open spec fn spec_header(ct: CurTime) -> Seq<char> {
    let label = match ct.zone_name {
        Some(z) => "Time for "@ + z@,
        None => "Local Time"@,
    };
    spec_pad25(label) + seq![' '] + spec_timestring(
        ct.hour as int,
        ct.minute as int,
        ct.second as int,
    ) + seq!['\n', '\n']
}

/// One row of the CSV encoding; an absent nickname is the literal `null`.
pub open spec fn spec_csv_row(row: OutputTimeView) -> Seq<char> {
    row.timezone_name + seq![','] + (match row.timezone_nickname {
        Some(n) => n,
        None => "null"@,
    }) + seq![','] + dec_digits(row.day_offset as nat) + seq![','] + row.timestring + seq![',']
        + dec_int(row.timestamp as int) + seq!['\n']
}

/// The CSV encoding: a fixed header line, then one line per row.
pub open spec fn spec_csv_rows(rows: Seq<OutputTimeView>) -> Seq<char>
    decreases rows.len(),
{
    if rows.len() == 0 {
        Seq::empty()
    } else {
        spec_csv_rows(rows.drop_last()) + spec_csv_row(rows.last())
    }
}

pub open spec fn spec_csv(rows: Seq<OutputTimeView>) -> Seq<char> {
    "Timezone Name,Timezone Nickname,Day Offset,Timestring,Timestamp\n"@ + spec_csv_rows(rows)
}

/// A hexadecimal digit character, lowercase.
pub open spec fn spec_hex_digit(d: int) -> char {
    if d < 10 {
        crate::chars::digit_char_of(d)
    } else {
        (('a' as int) + d - 10) as char
    }
}

/// The JSON escape of one character: quote and backslash escaped, control
/// characters by name or as `\u00..`, everything else itself.
pub open spec fn spec_escape_char(c: char) -> Seq<char> {
    if c == '"' {
        seq!['\\', '"']
    } else if c == '\\' {
        seq!['\\', '\\']
    } else if c == '\u{8}' {
        seq!['\\', 'b']
    } else if c == '\t' {
        seq!['\\', 't']
    } else if c == '\n' {
        seq!['\\', 'n']
    } else if c == '\u{c}' {
        seq!['\\', 'f']
    } else if c == '\r' {
        seq!['\\', 'r']
    } else if (c as int) < 32 {
        seq!['\\', 'u', '0', '0', spec_hex_digit(c as int / 16), spec_hex_digit(c as int % 16)]
    } else {
        seq![c]
    }
}

/// The JSON escape of a text.
pub open spec fn spec_escape(s: Seq<char>) -> Seq<char>
    decreases s.len(),
{
    if s.len() == 0 {
        Seq::empty()
    } else {
        spec_escape(s.drop_last()) + spec_escape_char(s.last())
    }
}

/// Escapes a text for a JSON string literal.
pub fn escape_json(s: &str) -> (r: String)
    ensures
        r@ == spec_escape(s@),
{
    let n = s.unicode_len();
    let mut out = String::new();
    let mut i: usize = 0;
    proof {
        assert(s@.take(0) =~= Seq::<char>::empty());
    }
    while i < n
        invariant
            n == s@.len(),
            i <= n,
            out@ == spec_escape(s@.take(i as int)),
        decreases n - i,
    {
        let c = s.get_char(i);
        proof {
            assert(s@.take(i + 1).drop_last() =~= s@.take(i as int));
            assert(s@.take(i + 1).last() == s@[i as int]);
        }
        if c == '"' {
            push_char(&mut out, '\\');
            push_char(&mut out, '"');
        } else if c == '\\' {
            push_char(&mut out, '\\');
            push_char(&mut out, '\\');
        } else if c == '\u{8}' {
            push_char(&mut out, '\\');
            push_char(&mut out, 'b');
        } else if c == '\t' {
            push_char(&mut out, '\\');
            push_char(&mut out, 't');
        } else if c == '\n' {
            push_char(&mut out, '\\');
            push_char(&mut out, 'n');
        } else if c == '\u{c}' {
            push_char(&mut out, '\\');
            push_char(&mut out, 'f');
        } else if c == '\r' {
            push_char(&mut out, '\\');
            push_char(&mut out, 'r');
        } else if (c as u32) < 32 {
            let v = c as u32;
            push_char(&mut out, '\\');
            push_char(&mut out, 'u');
            push_char(&mut out, '0');
            push_char(&mut out, '0');
            let hi = (v / 16) as u8;
            let lo = (v % 16) as u8;
            let hc: char = if hi < 10 {
                (hi + 48) as char
            } else {
                (hi + 87) as char
            };
            let lc: char = if lo < 10 {
                (lo + 48) as char
            } else {
                (lo + 87) as char
            };
            push_char(&mut out, hc);
            push_char(&mut out, lc);
        } else {
            push_char(&mut out, c);
        }
        i += 1;
        proof {
            assert(out@ =~= spec_escape(s@.take(i as int)));
        }
    }
    proof {
        assert(s@.take(n as int) =~= s@);
    }
    out
}

/// A JSON string literal: quotes around the escaped text.
pub open spec fn spec_json_string(s: Seq<char>) -> Seq<char> {
    seq!['"'] + spec_escape(s) + seq!['"']
}

/// The JSON value of an optional nickname: a string or `null`.
pub open spec fn spec_json_nick(nick: Option<Seq<char>>) -> Seq<char> {
    match nick {
        Some(n) => spec_json_string(n),
        None => "null"@,
    }
}

pub open spec fn spec_json_bool(b: bool) -> Seq<char> {
    if b {
        "true"@
    } else {
        "false"@
    }
}

/// The first half of a compact JSON row object.
pub open spec fn spec_json_row_head(row: OutputTimeView) -> Seq<char> {
    "{\"timezone_name\":"@ + spec_json_string(row.timezone_name) + ",\"timezone_nickname\":"@
        + spec_json_nick(row.timezone_nickname) + ",\"displayed_name\":"@ + spec_json_string(
        row.displayed_name,
    ) + ",\"day_offset\":"@ + dec_digits(row.day_offset as nat)
}

/// The second half of a compact JSON row object.
pub open spec fn spec_json_row_tail(row: OutputTimeView) -> Seq<char> {
    ",\"day_offset_str\":"@ + spec_json_string(row.day_offset_str) + ",\"timestamp\":"@ + dec_int(
        row.timestamp as int,
    ) + ",\"timestring\":"@ + spec_json_string(row.timestring) + ",\"separator\":"@
        + spec_json_bool(row.separator) + seq!['}']
}

/// One row as a compact JSON object, fields in declaration order.
pub open spec fn spec_json_row(row: OutputTimeView) -> Seq<char> {
    spec_json_row_head(row) + spec_json_row_tail(row)
}

/// The rows as compact JSON objects joined by commas.
pub open spec fn spec_json_items(rows: Seq<OutputTimeView>) -> Seq<char>
    decreases rows.len(),
{
    if rows.len() == 0 {
        Seq::empty()
    } else if rows.len() == 1 {
        spec_json_row(rows[0])
    } else {
        spec_json_items(rows.drop_last()) + seq![','] + spec_json_row(rows.last())
    }
}

/// The compact JSON encoding of the row list.
pub open spec fn spec_json(rows: Seq<OutputTimeView>) -> Seq<char> {
    seq!['['] + spec_json_items(rows) + seq![']']
}

/// One field line of the indented JSON encoding.
pub open spec fn spec_jsonp_field(key: Seq<char>, value: Seq<char>) -> Seq<char> {
    "    \""@ + key + "\": "@ + value
}

/// The first half of an indented JSON row object.
pub open spec fn spec_jsonp_row_head(row: OutputTimeView) -> Seq<char> {
    "  {\n"@ + spec_jsonp_field("timezone_name"@, spec_json_string(row.timezone_name)) + ",\n"@
        + spec_jsonp_field("timezone_nickname"@, spec_json_nick(row.timezone_nickname)) + ",\n"@
        + spec_jsonp_field("displayed_name"@, spec_json_string(row.displayed_name)) + ",\n"@
        + spec_jsonp_field("day_offset"@, dec_digits(row.day_offset as nat)) + ",\n"@
}

/// The second half of an indented JSON row object.
pub open spec fn spec_jsonp_row_tail(row: OutputTimeView) -> Seq<char> {
    spec_jsonp_field("day_offset_str"@, spec_json_string(row.day_offset_str)) + ",\n"@
        + spec_jsonp_field("timestamp"@, dec_int(row.timestamp as int)) + ",\n"@
        + spec_jsonp_field("timestring"@, spec_json_string(row.timestring)) + ",\n"@
        + spec_jsonp_field("separator"@, spec_json_bool(row.separator)) + "\n  }"@
}

/// One row as an indented JSON object.
pub open spec fn spec_jsonp_row(row: OutputTimeView) -> Seq<char> {
    spec_jsonp_row_head(row) + spec_jsonp_row_tail(row)
}

/// The rows as indented JSON objects joined by commas and line breaks.
pub open spec fn spec_jsonp_items(rows: Seq<OutputTimeView>) -> Seq<char>
    decreases rows.len(),
{
    if rows.len() == 0 {
        Seq::empty()
    } else if rows.len() == 1 {
        spec_jsonp_row(rows[0])
    } else {
        spec_jsonp_items(rows.drop_last()) + ",\n"@ + spec_jsonp_row(rows.last())
    }
}

/// The indented JSON encoding of the row list.
pub open spec fn spec_json_pretty(rows: Seq<OutputTimeView>) -> Seq<char> {
    if rows.len() == 0 {
        "[]"@
    } else {
        "[\n"@ + spec_jsonp_items(rows) + "\n]"@
    }
}

/// The whole output of one invocation: the header (in the aligned text
/// encoding only) followed by the encoded rows.
pub open spec fn spec_render(ct: CurTime, rows: Seq<OutputTimeView>, format: OutputFormat) -> Seq<
    char,
> {
    match format {
        OutputFormat::Pretty => spec_header(ct) + spec_pretty_rows(rows),
        OutputFormat::Csv => spec_csv(rows),
        OutputFormat::Json => spec_json(rows),
        OutputFormat::JsonPretty => spec_json_pretty(rows),
    }
}

/// Appends a JSON string literal for `s`.
fn append_json_string(out: &mut String, s: &String)
    ensures
        final(out)@ == old(out)@ + spec_json_string(s@),
{
    push_char(out, '"');
    let e = escape_json(s.as_str());
    out.append(e.as_str());
    push_char(out, '"');
    proof {
        assert(final(out)@ =~= old(out)@ + spec_json_string(s@));
    }
}

/// Appends the first half of a compact JSON row object.
fn append_json_row_head(out: &mut String, row: &OutputTime)
    ensures
        final(out)@ == old(out)@ + spec_json_row_head(row@),
{
    out.append("{\"timezone_name\":");
    append_json_string(out, &row.timezone_name);
    out.append(",\"timezone_nickname\":");
    match &row.timezone_nickname {
        Some(n) => append_json_string(out, n),
        None => out.append("null"),
    }
    out.append(",\"displayed_name\":");
    append_json_string(out, &row.displayed_name);
    out.append(",\"day_offset\":");
    let d = u64_to_dec(row.day_offset as u64);
    out.append(d.as_str());
    proof {
        assert(final(out)@ =~= old(out)@ + spec_json_row_head(row@));
    }
}

/// Appends the second half of a compact JSON row object.
fn append_json_row_tail(out: &mut String, row: &OutputTime)
    ensures
        final(out)@ == old(out)@ + spec_json_row_tail(row@),
{
    out.append(",\"day_offset_str\":");
    append_json_string(out, &row.day_offset_str);
    out.append(",\"timestamp\":");
    let t = i64_to_dec(row.timestamp);
    out.append(t.as_str());
    out.append(",\"timestring\":");
    append_json_string(out, &row.timestring);
    out.append(",\"separator\":");
    if row.separator {
        out.append("true");
    } else {
        out.append("false");
    }
    push_char(out, '}');
    proof {
        assert(final(out)@ =~= old(out)@ + spec_json_row_tail(row@));
    }
}

/// Appends one compact JSON row object.
fn append_json_row(out: &mut String, row: &OutputTime)
    ensures
        final(out)@ == old(out)@ + spec_json_row(row@),
{
    append_json_row_head(out, row);
    append_json_row_tail(out, row);
    proof {
        assert(final(out)@ =~= old(out)@ + spec_json_row(row@));
    }
}

/// The JSON text of a string value.
fn json_string_of(s: &String) -> (r: String)
    ensures
        r@ == spec_json_string(s@),
{
    let mut out = String::new();
    push_char(&mut out, '"');
    let e = escape_json(s.as_str());
    out.append(e.as_str());
    push_char(&mut out, '"');
    proof {
        assert(out@ =~= spec_json_string(s@));
    }
    out
}

/// The JSON text of an optional nickname.
fn json_nick_of(nick: &Option<String>) -> (r: String)
    ensures
        r@ == spec_json_nick(
            match nick {
                Some(n) => Some(n@),
                None => None,
            },
        ),
{
    match nick {
        Some(n) => json_string_of(n),
        None => {
            let mut out = String::new();
            out.append("null");
            out
        },
    }
}

/// Appends one field line of the indented JSON encoding, given the value's
/// JSON text.
fn append_jsonp_field(out: &mut String, key: &str, value: &String)
    ensures
        final(out)@ == old(out)@ + spec_jsonp_field(key@, value@),
{
    out.append("    \"");
    out.append(key);
    out.append("\": ");
    out.append(value.as_str());
    proof {
        assert(final(out)@ =~= old(out)@ + spec_jsonp_field(key@, value@));
    }
}

/// Appends the first half of an indented JSON row object.
fn append_jsonp_row_head(out: &mut String, row: &OutputTime)
    ensures
        final(out)@ == old(out)@ + spec_jsonp_row_head(row@),
{
    out.append("  {\n");
    let v1 = json_string_of(&row.timezone_name);
    append_jsonp_field(out, "timezone_name", &v1);
    out.append(",\n");
    let v2 = json_nick_of(&row.timezone_nickname);
    append_jsonp_field(out, "timezone_nickname", &v2);
    out.append(",\n");
    let v3 = json_string_of(&row.displayed_name);
    append_jsonp_field(out, "displayed_name", &v3);
    out.append(",\n");
    let v4 = u64_to_dec(row.day_offset as u64);
    append_jsonp_field(out, "day_offset", &v4);
    out.append(",\n");
    proof {
        assert(final(out)@ =~= old(out)@ + spec_jsonp_row_head(row@));
    }
}

/// Appends the second half of an indented JSON row object.
fn append_jsonp_row_tail(out: &mut String, row: &OutputTime)
    ensures
        final(out)@ == old(out)@ + spec_jsonp_row_tail(row@),
{
    let v5 = json_string_of(&row.day_offset_str);
    append_jsonp_field(out, "day_offset_str", &v5);
    out.append(",\n");
    let v6 = i64_to_dec(row.timestamp);
    append_jsonp_field(out, "timestamp", &v6);
    out.append(",\n");
    let v7 = json_string_of(&row.timestring);
    append_jsonp_field(out, "timestring", &v7);
    out.append(",\n");
    let v8: String = if row.separator {
        let mut b = String::new();
        b.append("true");
        b
    } else {
        let mut b = String::new();
        b.append("false");
        b
    };
    append_jsonp_field(out, "separator", &v8);
    out.append("\n  }");
    proof {
        assert(final(out)@ =~= old(out)@ + spec_jsonp_row_tail(row@));
    }
}

/// Appends one indented JSON row object.
fn append_jsonp_row(out: &mut String, row: &OutputTime)
    ensures
        final(out)@ == old(out)@ + spec_jsonp_row(row@),
{
    append_jsonp_row_head(out, row);
    append_jsonp_row_tail(out, row);
    proof {
        assert(final(out)@ =~= old(out)@ + spec_jsonp_row(row@));
    }
}

/// Appends one aligned text row.
fn append_pretty_row(out: &mut String, row: &OutputTime)
    ensures
        final(out)@ == old(out)@ + spec_pretty_row(row@),
{
    let padded = pad25(&row.displayed_name);
    out.append(padded.as_str());
    push_char(out, ' ');
    out.append(row.timestring.as_str());
    push_char(out, ' ');
    out.append(row.day_offset_str.as_str());
    push_char(out, '\n');
    if row.separator {
        out.append("----------------------------------\n");
    }
    proof {
        assert(final(out)@ =~= old(out)@ + spec_pretty_row(row@));
    }
}

/// Appends one CSV row line.
fn append_csv_row(out: &mut String, row: &OutputTime)
    ensures
        final(out)@ == old(out)@ + spec_csv_row(row@),
{
    out.append(row.timezone_name.as_str());
    push_char(out, ',');
    match &row.timezone_nickname {
        Some(n) => out.append(n.as_str()),
        None => out.append("null"),
    }
    push_char(out, ',');
    let d = u64_to_dec(row.day_offset as u64);
    out.append(d.as_str());
    push_char(out, ',');
    out.append(row.timestring.as_str());
    push_char(out, ',');
    let t = i64_to_dec(row.timestamp);
    out.append(t.as_str());
    push_char(out, '\n');
    proof {
        assert(final(out)@ =~= old(out)@ + spec_csv_row(row@));
    }
}

/// Serializes a projected row list in the requested encoding, with the
/// anchor's header line in the aligned text encoding only.
pub fn render(ct: &CurTime, rows: &Vec<OutputTime>, format: OutputFormat) -> (r: String)
    requires
        ct.well_formed(),
    ensures
        r@ == spec_render(*ct, rows_view(rows@), format),
{
    let n = rows.len();
    match format {
        OutputFormat::Pretty => {
            let label = match &ct.zone_name {
                Some(z) => {
                    let mut l = String::new();
                    l.append("Time for ");
                    l.append(z.as_str());
                    l
                },
                None => {
                    let mut l = String::new();
                    l.append("Local Time");
                    l
                },
            };
            let mut out = pad25(&label);
            push_char(&mut out, ' ');
            let hms = crate::numfmt::hms_string(ct.hour, ct.minute, ct.second);
            out.append(hms.as_str());
            push_char(&mut out, '\n');
            push_char(&mut out, '\n');
            proof {
                assert(out@ =~= spec_header(*ct));
            }
            let mut i: usize = 0;
            while i < n
                invariant
                    n == rows@.len(),
                    i <= n,
                    out@ == spec_header(*ct) + spec_pretty_rows(rows_view(rows@).take(i as int)),
                decreases n - i,
            {
                proof {
                    assert(rows_view(rows@).take(i + 1).drop_last() =~= rows_view(rows@).take(
                        i as int,
                    ));
                    assert(rows_view(rows@).take(i + 1).last() == rows@[i as int]@);
                }
                append_pretty_row(&mut out, &rows[i]);
                i += 1;
            }
            proof {
                assert(rows_view(rows@).take(n as int) =~= rows_view(rows@));
            }
            out
        },
        OutputFormat::Csv => {
            let mut out = String::new();
            out.append("Timezone Name,Timezone Nickname,Day Offset,Timestring,Timestamp\n");
            let mut i: usize = 0;
            proof {
                assert(out@ =~= "Timezone Name,Timezone Nickname,Day Offset,Timestring,Timestamp\n"@
                    + spec_csv_rows(rows_view(rows@).take(0)));
            }
            while i < n
                invariant
                    n == rows@.len(),
                    i <= n,
                    out@ == "Timezone Name,Timezone Nickname,Day Offset,Timestring,Timestamp\n"@
                        + spec_csv_rows(rows_view(rows@).take(i as int)),
                decreases n - i,
            {
                proof {
                    assert(rows_view(rows@).take(i + 1).drop_last() =~= rows_view(rows@).take(
                        i as int,
                    ));
                    assert(rows_view(rows@).take(i + 1).last() == rows@[i as int]@);
                }
                append_csv_row(&mut out, &rows[i]);
                i += 1;
            }
            proof {
                assert(rows_view(rows@).take(n as int) =~= rows_view(rows@));
            }
            out
        },
        OutputFormat::Json => {
            let mut out = String::new();
            push_char(&mut out, '[');
            let mut i: usize = 0;
            while i < n
                invariant
                    n == rows@.len(),
                    i <= n,
                    out@ == seq!['['] + spec_json_items(rows_view(rows@).take(i as int)),
                decreases n - i,
            {
                proof {
                    assert(rows_view(rows@).take(i + 1).drop_last() =~= rows_view(rows@).take(
                        i as int,
                    ));
                    assert(rows_view(rows@).take(i + 1).last() == rows@[i as int]@);
                }
                if i > 0 {
                    push_char(&mut out, ',');
                }
                append_json_row(&mut out, &rows[i]);
                i += 1;
                proof {
                    assert(out@ =~= seq!['['] + spec_json_items(rows_view(rows@).take(i as int)));
                }
            }
            push_char(&mut out, ']');
            proof {
                assert(rows_view(rows@).take(n as int) =~= rows_view(rows@));
                assert(out@ =~= spec_json(rows_view(rows@)));
            }
            out
        },
        OutputFormat::JsonPretty => {
            if n == 0 {
                let mut out = String::new();
                out.append("[]");
                proof {
                    assert(out@ =~= spec_json_pretty(rows_view(rows@)));
                }
                return out;
            }
            let mut out = String::new();
            out.append("[\n");
            let mut i: usize = 0;
            while i < n
                invariant
                    n == rows@.len(),
                    i <= n,
                    out@ == "[\n"@ + spec_jsonp_items(rows_view(rows@).take(i as int)),
                decreases n - i,
            {
                proof {
                    assert(rows_view(rows@).take(i + 1).drop_last() =~= rows_view(rows@).take(
                        i as int,
                    ));
                    assert(rows_view(rows@).take(i + 1).last() == rows@[i as int]@);
                }
                if i > 0 {
                    out.append(",\n");
                }
                append_jsonp_row(&mut out, &rows[i]);
                i += 1;
                proof {
                    assert(out@ =~= "[\n"@ + spec_jsonp_items(rows_view(rows@).take(i as int)));
                }
            }
            out.append("\n]");
            proof {
                assert(rows_view(rows@).take(n as int) =~= rows_view(rows@));
                assert(out@ =~= spec_json_pretty(rows_view(rows@)));
            }
            out
        },
    }
}

/// One line of the saved-zone listing: the padded zone name, a space, the
/// nickname or nothing.
pub open spec fn spec_defines_line(name: Seq<char>, nick: Option<Seq<char>>) -> Seq<char> {
    spec_pad25(name) + seq![' '] + (match nick {
        Some(n) => n,
        None => Seq::<char>::empty(),
    }) + seq!['\n']
}

/// The saved-zone listing, one line per entry in list order.
pub open spec fn spec_defines_list(entries: Seq<crate::model::SavedTimezoneView>) -> Seq<char>
    decreases entries.len(),
{
    if entries.len() == 0 {
        Seq::empty()
    } else {
        spec_defines_list(entries.drop_last()) + spec_defines_line(
            entries.last().timezone_name,
            entries.last().nickname,
        )
    }
}

/// Renders the saved-zone list as aligned text, one entry per line.
pub fn format_defines_list(defines: &SavedDefines) -> (r: String)
    ensures
        r@ == spec_defines_list(defines@.timezones),
{
    let mut out = String::new();
    let n = defines.timezones.len();
    let mut i: usize = 0;
    proof {
        assert(out@ =~= spec_defines_list(defines@.timezones.take(0)));
    }
    while i < n
        invariant
            n == defines.timezones@.len(),
            i <= n,
            out@ == spec_defines_list(defines@.timezones.take(i as int)),
        decreases n - i,
    {
        proof {
            assert(defines@.timezones.take(i + 1).drop_last() =~= defines@.timezones.take(i as int));
            assert(defines@.timezones.take(i + 1).last() == defines.timezones@[i as int]@);
        }
        let padded = pad25(&defines.timezones[i].timezone_name);
        out.append(padded.as_str());
        push_char(&mut out, ' ');
        match &defines.timezones[i].nickname {
            Some(nick) => out.append(nick.as_str()),
            None => {},
        }
        push_char(&mut out, '\n');
        i += 1;
        proof {
            assert(out@ =~= spec_defines_list(defines@.timezones.take(i as int)));
        }
    }
    proof {
        assert(defines@.timezones.take(n as int) =~= defines@.timezones);
    }
    out
}

} // verus!
