//! A reader for the compact JSON the renderer emits, at the specification
//! level, with proofs that it inverts the renderer: parsing a rendered row
//! list yields the original rows.

use vstd::prelude::*;
use vstd::seq_lib::lemma_concat_associative;
use crate::chars::digit_char_of;
use crate::chars::digit_val;
use crate::chars::is_digit;
use crate::model::CurTime;
use crate::model::OutputFormat;
use crate::model::OutputTimeView;
use crate::numfmt::dec_digits;
use crate::numfmt::dec_int;
use crate::render::spec_escape;
use crate::render::spec_escape_char;
use crate::render::spec_hex_digit;
use crate::render::spec_json;
use crate::render::spec_json_bool;
use crate::render::spec_json_items;
use crate::render::spec_json_nick;
use crate::render::spec_json_row;
use crate::render::spec_json_row_head;
use crate::render::spec_json_row_tail;
use crate::render::spec_json_string;
use crate::render::spec_render;

verus! {

/// The value of a hexadecimal digit character, lowercase or uppercase.
pub open spec fn spec_hex_val(c: char) -> Option<int> {
    if '0' <= c && c <= '9' {
        Some(c as int - '0' as int)
    } else if 'a' <= c && c <= 'f' {
        Some(c as int - 'a' as int + 10)
    } else if 'A' <= c && c <= 'F' {
        Some(c as int - 'A' as int + 10)
    } else {
        None
    }
}

/// Reads an escaped JSON string body up to its closing quote: the decoded
/// text and what follows the quote.
pub open spec fn spec_parse_string_body(s: Seq<char>) -> Option<(Seq<char>, Seq<char>)>
    decreases s.len(),
{
    if s.len() == 0 {
        None
    } else if s[0] == '"' {
        Some((Seq::empty(), s.skip(1)))
    } else if s[0] == '\\' {
        if s.len() < 2 {
            None
        } else if s[1] == 'u' {
            if s.len() < 6 {
                None
            } else {
                match (spec_hex_val(s[2]), spec_hex_val(s[3]), spec_hex_val(s[4]), spec_hex_val(
                    s[5],
                )) {
                    (Some(h1), Some(h2), Some(h3), Some(h4)) => {
                        let c = (h1 * 4096 + h2 * 256 + h3 * 16 + h4) as char;
                        match spec_parse_string_body(s.skip(6)) {
                            Some(r) => Some((seq![c] + r.0, r.1)),
                            None => None,
                        }
                    },
                    _ => None,
                }
            }
        } else {
            let decoded: Option<char> = if s[1] == '"' {
                Some('"')
            } else if s[1] == '\\' {
                Some('\\')
            } else if s[1] == '/' {
                Some('/')
            } else if s[1] == 'b' {
                Some('\u{8}')
            } else if s[1] == 't' {
                Some('\t')
            } else if s[1] == 'n' {
                Some('\n')
            } else if s[1] == 'f' {
                Some('\u{c}')
            } else if s[1] == 'r' {
                Some('\r')
            } else {
                None
            };
            match decoded {
                Some(c) => match spec_parse_string_body(s.skip(2)) {
                    Some(r) => Some((seq![c] + r.0, r.1)),
                    None => None,
                },
                None => None,
            }
        }
    } else {
        match spec_parse_string_body(s.skip(1)) {
            Some(r) => Some((seq![s[0]] + r.0, r.1)),
            None => None,
        }
    }
}

/// Reads a JSON string literal: an opening quote, a body, a closing quote.
pub open spec fn spec_parse_json_string(s: Seq<char>) -> Option<(Seq<char>, Seq<char>)> {
    if s.len() > 0 && s[0] == '"' {
        spec_parse_string_body(s.skip(1))
    } else {
        None
    }
}

/// Escaping read from the front: the first character's escape, then the
/// escape of the rest.
proof fn lemma_escape_unfold_front(s: Seq<char>)
    requires
        s.len() > 0,
    ensures
        spec_escape(s) == spec_escape_char(s[0]) + spec_escape(s.skip(1)),
    decreases s.len(),
{
    if s.len() == 1 {
        assert(s.drop_last().len() == 0);
        assert(s.skip(1).len() == 0);
        assert(spec_escape(s.drop_last()) =~= Seq::<char>::empty());
        assert(spec_escape(s.skip(1)) =~= Seq::<char>::empty());
        assert(spec_escape(s) == spec_escape(s.drop_last()) + spec_escape_char(s.last()));
        assert(s.last() == s[0]);
        assert(spec_escape(s) =~= spec_escape_char(s[0]) + spec_escape(s.skip(1)));
    } else {
        let sd = s.drop_last();
        lemma_escape_unfold_front(sd);
        assert(s.skip(1).drop_last() =~= sd.skip(1));
        assert(s.skip(1).last() == s.last());
        assert(sd[0] == s[0]);
        assert(spec_escape(s) == spec_escape(sd) + spec_escape_char(s.last()));
        assert(spec_escape(s.skip(1)) == spec_escape(sd.skip(1)) + spec_escape_char(s.last()));
        assert(spec_escape(s) =~= spec_escape_char(s[0]) + spec_escape(s.skip(1)));
    }
}

/// Reading one escaped character from the front: the escape of `c`
/// followed by a parseable body reads back as `c` prepended to the body's
/// text.
proof fn lemma_parse_after_escape_char(c: char, body: Seq<char>, content: Seq<char>, rest: Seq<
    char,
>)
    requires
        spec_parse_string_body(body) == Some((content, rest)),
    ensures
        spec_parse_string_body(spec_escape_char(c) + body) == Some((seq![c] + content, rest)),
{
    let input = spec_escape_char(c) + body;
    let ec = spec_escape_char(c);
    if c == '"' || c == '\\' || c == '\u{8}' || c == '\t' || c == '\n' || c == '\u{c}' || c
        == '\r' {
        assert(ec.len() == 2);
        assert(input[0] == '\\');
        assert(input[1] == ec[1]);
        assert(input.skip(2) =~= body);
        assert(spec_parse_string_body(input) == Some((seq![c] + content, rest)));
    } else if (c as int) < 32 {
        assert(c as int >= 0);
        assert(ec == seq![
            '\\',
            'u',
            '0',
            '0',
            spec_hex_digit(c as int / 16),
            spec_hex_digit(c as int % 16),
        ]);
        assert(input[0] == '\\');
        assert(input[1] == 'u');
        assert(input[2] == '0');
        assert(input[3] == '0');
        assert(input[4] == spec_hex_digit(c as int / 16));
        assert(input[5] == spec_hex_digit(c as int % 16));
        assert(spec_hex_val('0') == Some(0int));
        assert(0 <= c as int / 16 < 16);
        assert(0 <= c as int % 16 < 16);
        lemma_hex_digit_round_trip(c as int / 16);
        lemma_hex_digit_round_trip(c as int % 16);
        assert(input.skip(6) =~= body);
        assert((0 * 4096 + 0 * 256 + (c as int / 16) * 16 + c as int % 16) == c as int);
        assert(((c as int) as char) == c);
        assert(spec_parse_string_body(input) == Some((seq![c] + content, rest)));
    } else {
        assert(ec == seq![c]);
        assert(input[0] == c);
        assert(input.skip(1) =~= body);
        assert(spec_parse_string_body(input) == Some((seq![c] + content, rest)));
    }
}

/// Parsing undoes escaping: the escaped text followed by a closing quote
/// and anything else reads back as the text and that remainder.
pub proof fn lemma_escape_round_trip(s: Seq<char>, rest: Seq<char>)
    ensures
        spec_parse_string_body(spec_escape(s) + seq!['"'] + rest) == Some((s, rest)),
    decreases s.len(),
{
    if s.len() == 0 {
        let input = spec_escape(s) + seq!['"'] + rest;
        assert(input[0] == '"');
        assert(input.skip(1) =~= rest);
        assert(spec_parse_string_body(input) == Some((Seq::<char>::empty(), rest)));
        assert(s =~= Seq::<char>::empty());
    } else {
        let c = s[0];
        let tail = s.skip(1);
        lemma_escape_unfold_front(s);
        lemma_escape_round_trip(tail, rest);
        let inner = spec_escape(tail) + seq!['"'] + rest;
        let input = spec_escape(s) + seq!['"'] + rest;
        assert(input =~= spec_escape_char(c) + inner);
        lemma_parse_after_escape_char(c, inner, tail, rest);
        assert(seq![c] + tail =~= s);
    }
}

/// A hexadecimal digit below sixteen reads back as itself.
proof fn lemma_hex_digit_round_trip(d: int)
    requires
        0 <= d < 16,
    ensures
        spec_hex_val(spec_hex_digit(d)) == Some(d),
{
    if d < 10 {
        assert(spec_hex_digit(d) == digit_char_of(d));
        assert('0' as int == 48);
        assert(spec_hex_val((d + 48) as char) == Some(d));
    } else {
        assert('a' as int == 97);
        assert(spec_hex_val((97 + d - 10) as char) == Some(d));
    }
}

/// A rendered JSON string literal reads back as its text.
pub proof fn lemma_json_string_round_trip(s: Seq<char>, rest: Seq<char>)
    ensures
        spec_parse_json_string(spec_json_string(s) + rest) == Some((s, rest)),
{
    let input = spec_json_string(s) + rest;
    assert(input[0] == '"');
    assert(input.skip(1) =~= spec_escape(s) + seq!['"'] + rest);
    lemma_escape_round_trip(s, rest);
}

/// The length of the leading run of decimal digits.
pub open spec fn spec_digit_run(s: Seq<char>) -> int
    decreases s.len(),
{
    if s.len() == 0 || !is_digit(s[0]) {
        0
    } else {
        1 + spec_digit_run(s.skip(1))
    }
}

/// The value of a text of decimal digits, most significant first.
pub open spec fn spec_digits_val(s: Seq<char>) -> int
    decreases s.len(),
{
    if s.len() == 0 {
        0
    } else {
        spec_digits_val(s.drop_last()) * 10 + digit_val(s.last())
    }
}

/// Reads an unsigned decimal number: its value and what follows the
/// digits.
pub open spec fn spec_parse_uint(s: Seq<char>) -> Option<(int, Seq<char>)> {
    let k = spec_digit_run(s);
    if k == 0 {
        None
    } else {
        Some((spec_digits_val(s.take(k)), s.skip(k)))
    }
}

/// Reads a decimal number with an optional leading minus sign.
pub open spec fn spec_parse_int(s: Seq<char>) -> Option<(int, Seq<char>)> {
    if s.len() > 0 && s[0] == '-' {
        match spec_parse_uint(s.skip(1)) {
            Some(r) => Some((-r.0, r.1)),
            None => None,
        }
    } else {
        spec_parse_uint(s)
    }
}

/// The decimal rendering of `n` is one or more digits carrying the value
/// `n`.
proof fn lemma_dec_digits_chars(n: nat)
    ensures
        dec_digits(n).len() >= 1,
        forall|i: int| 0 <= i < dec_digits(n).len() ==> is_digit(#[trigger] dec_digits(n)[i]),
        spec_digits_val(dec_digits(n)) == n,
    decreases n,
{
    if n < 10 {
        let d = dec_digits(n);
        assert(d == seq![digit_char_of(n as int)]);
        assert('0' as int == 48);
        assert(digit_char_of(n as int) == ((n + 48) as int) as char);
        assert(digit_val(digit_char_of(n as int)) == n);
        assert(is_digit(d[0]));
        assert(d.drop_last().len() == 0);
        assert(spec_digits_val(d.drop_last()) == 0);
        assert(d.last() == digit_char_of(n as int));
        assert(spec_digits_val(d) == digit_val(d[0]));
    } else {
        lemma_dec_digits_chars(n / 10);
        let p = dec_digits(n / 10);
        let d = dec_digits(n);
        assert(d == p.push(digit_char_of((n % 10) as int)));
        assert(d.drop_last() =~= p);
        assert(d.last() == digit_char_of((n % 10) as int));
        assert(spec_digits_val(d) == spec_digits_val(p) * 10 + (n % 10));
        assert forall|i: int| 0 <= i < d.len() implies is_digit(#[trigger] d[i]) by {
            if i < p.len() {
                assert(d[i] == p[i]);
            }
        }
    }
}

/// The digit run of digits followed by a non-digit is exactly those
/// digits.
proof fn lemma_digit_run_concat(d: Seq<char>, rest: Seq<char>)
    requires
        forall|i: int| 0 <= i < d.len() ==> is_digit(#[trigger] d[i]),
        rest.len() == 0 || !is_digit(rest[0]),
    ensures
        spec_digit_run(d + rest) == d.len(),
    decreases d.len(),
{
    if d.len() == 0 {
        assert(d + rest =~= rest);
    } else {
        assert((d + rest)[0] == d[0]);
        assert((d + rest).skip(1) =~= d.skip(1) + rest);
        assert forall|i: int| 0 <= i < d.skip(1).len() implies is_digit(
            #[trigger] d.skip(1)[i],
        ) by {
            assert(d.skip(1)[i] == d[i + 1]);
        }
        lemma_digit_run_concat(d.skip(1), rest);
    }
}

/// A rendered unsigned number followed by a non-digit reads back as its
/// value.
pub proof fn lemma_uint_round_trip(n: nat, rest: Seq<char>)
    requires
        rest.len() == 0 || !is_digit(rest[0]),
    ensures
        spec_parse_uint(dec_digits(n) + rest) == Some((n as int, rest)),
{
    lemma_dec_digits_chars(n);
    lemma_digit_run_concat(dec_digits(n), rest);
    let input = dec_digits(n) + rest;
    let k = spec_digit_run(input);
    assert(k == dec_digits(n).len());
    assert(input.take(k) =~= dec_digits(n));
    assert(input.skip(k) =~= rest);
}

/// A rendered signed number followed by a non-digit reads back as its
/// value.
pub proof fn lemma_int_round_trip(n: int, rest: Seq<char>)
    requires
        rest.len() == 0 || !is_digit(rest[0]),
    ensures
        spec_parse_int(dec_int(n) + rest) == Some((n, rest)),
{
    if n < 0 {
        let input = dec_int(n) + rest;
        assert(input[0] == '-');
        assert(input.skip(1) =~= dec_digits((-n) as nat) + rest);
        lemma_uint_round_trip((-n) as nat, rest);
    } else {
        let input = dec_int(n) + rest;
        lemma_dec_digits_chars(n as nat);
        assert(input[0] == dec_digits(n as nat)[0]);
        assert(is_digit(input[0]));
        assert(input[0] != '-');
        assert(input =~= dec_digits(n as nat) + rest);
        lemma_uint_round_trip(n as nat, rest);
    }
}

/// Strips an expected literal prefix.
pub open spec fn spec_strip(s: Seq<char>, p: Seq<char>) -> Option<Seq<char>> {
    if p.len() <= s.len() && s.take(p.len() as int) == p {
        Some(s.skip(p.len() as int))
    } else {
        None
    }
}

/// A present prefix strips to the remainder.
proof fn lemma_strip(p: Seq<char>, rest: Seq<char>)
    ensures
        spec_strip(p + rest, p) == Some(rest),
{
    assert((p + rest).take(p.len() as int) =~= p);
    assert((p + rest).skip(p.len() as int) =~= rest);
}

/// Reads `true` or `false`.
pub open spec fn spec_parse_bool(s: Seq<char>) -> Option<(bool, Seq<char>)> {
    match spec_strip(s, "true"@) {
        Some(r) => Some((true, r)),
        None => match spec_strip(s, "false"@) {
            Some(r) => Some((false, r)),
            None => None,
        },
    }
}

/// A rendered boolean reads back as its value.
pub proof fn lemma_bool_round_trip(b: bool, rest: Seq<char>)
    ensures
        spec_parse_bool(spec_json_bool(b) + rest) == Some((b, rest)),
{
    reveal_strlit("true");
    reveal_strlit("false");
    if b {
        lemma_strip("true"@, rest);
    } else {
        lemma_strip("false"@, rest);
        let input = "false"@ + rest;
        assert(input[0] == 'f');
        if spec_strip(input, "true"@) is Some {
            assert(input.take(4)[0] == 't');
        }
    }
}

/// Reads a nickname value: `null` or a string literal.
pub open spec fn spec_parse_nick(s: Seq<char>) -> Option<(Option<Seq<char>>, Seq<char>)> {
    match spec_strip(s, "null"@) {
        Some(r) => Some((None, r)),
        None => match spec_parse_json_string(s) {
            Some(r) => Some((Some(r.0), r.1)),
            None => None,
        },
    }
}

/// A rendered nickname reads back as its value.
pub proof fn lemma_nick_round_trip(nick: Option<Seq<char>>, rest: Seq<char>)
    ensures
        spec_parse_nick(spec_json_nick(nick) + rest) == Some((nick, rest)),
{
    reveal_strlit("null");
    match nick {
        None => {
            lemma_strip("null"@, rest);
        },
        Some(n) => {
            let input = spec_json_string(n) + rest;
            assert(input[0] == '"');
            if spec_strip(input, "null"@) is Some {
                assert(input.take(4)[0] == 'n');
            }
            lemma_json_string_round_trip(n, rest);
        },
    }
}

/// Reads the first half of a row object: name, nickname, display name and
/// day offset.
pub open spec fn spec_parse_row_head(s: Seq<char>) -> Option<
    ((Seq<char>, Option<Seq<char>>, Seq<char>, int), Seq<char>),
> {
    match spec_strip(s, "{\"timezone_name\":"@) {
        None => None,
        Some(s1) => match spec_parse_json_string(s1) {
            None => None,
            Some((name, s2)) => match spec_strip(s2, ",\"timezone_nickname\":"@) {
                None => None,
                Some(s3) => match spec_parse_nick(s3) {
                    None => None,
                    Some((nick, s4)) => match spec_strip(s4, ",\"displayed_name\":"@) {
                        None => None,
                        Some(s5) => match spec_parse_json_string(s5) {
                            None => None,
                            Some((disp, s6)) => match spec_strip(s6, ",\"day_offset\":"@) {
                                None => None,
                                Some(s7) => match spec_parse_uint(s7) {
                                    None => None,
                                    Some((off, s8)) => Some(((name, nick, disp, off), s8)),
                                },
                            },
                        },
                    },
                },
            },
        },
    }
}

/// Reads the second half of a row object: offset label, timestamp,
/// wall-clock text and separator flag, up to the closing brace.
pub open spec fn spec_parse_row_tail(s: Seq<char>) -> Option<
    ((Seq<char>, int, Seq<char>, bool), Seq<char>),
> {
    match spec_strip(s, ",\"day_offset_str\":"@) {
        None => None,
        Some(s1) => match spec_parse_json_string(s1) {
            None => None,
            Some((offstr, s2)) => match spec_strip(s2, ",\"timestamp\":"@) {
                None => None,
                Some(s3) => match spec_parse_int(s3) {
                    None => None,
                    Some((ts, s4)) => match spec_strip(s4, ",\"timestring\":"@) {
                        None => None,
                        Some(s5) => match spec_parse_json_string(s5) {
                            None => None,
                            Some((tstr, s6)) => match spec_strip(s6, ",\"separator\":"@) {
                                None => None,
                                Some(s7) => match spec_parse_bool(s7) {
                                    None => None,
                                    Some((sep, s8)) => match spec_strip(s8, seq!['}']) {
                                        None => None,
                                        Some(s9) => Some(((offstr, ts, tstr, sep), s9)),
                                    },
                                },
                            },
                        },
                    },
                },
            },
        },
    }
}

/// Reads one row object.
pub open spec fn spec_parse_row(s: Seq<char>) -> Option<(OutputTimeView, Seq<char>)> {
    match spec_parse_row_head(s) {
        None => None,
        Some((h, r)) => match spec_parse_row_tail(r) {
            None => None,
            Some((t, r2)) => Some(
                (
                    OutputTimeView {
                        timezone_name: h.0,
                        timezone_nickname: h.1,
                        displayed_name: h.2,
                        day_offset: h.3 as u32,
                        day_offset_str: t.0,
                        timestamp: t.1 as i64,
                        timestring: t.2,
                        separator: t.3,
                    },
                    r2,
                ),
            ),
        },
    }
}

/// A rendered first half reads back as its fields.
proof fn lemma_row_head_round_trip(row: OutputTimeView, rest: Seq<char>)
    requires
        rest.len() > 0,
        !is_digit(rest[0]),
    ensures
        spec_parse_row_head(spec_json_row_head(row) + rest) == Some(
            ((row.timezone_name, row.timezone_nickname, row.displayed_name, row.day_offset as int), rest),
        ),
{
    let l1 = "{\"timezone_name\":"@;
    let l2 = ",\"timezone_nickname\":"@;
    let l3 = ",\"displayed_name\":"@;
    let l4 = ",\"day_offset\":"@;
    let v1 = spec_json_string(row.timezone_name);
    let v2 = spec_json_nick(row.timezone_nickname);
    let v3 = spec_json_string(row.displayed_name);
    let v4 = dec_digits(row.day_offset as nat);
    let t8 = rest;
    let t7 = v4 + t8;
    let t6 = l4 + t7;
    let t5 = v3 + t6;
    let t4 = l3 + t5;
    let t3 = v2 + t4;
    let t2 = l2 + t3;
    let t1 = v1 + t2;
    let input = spec_json_row_head(row) + rest;
    assert(input =~= l1 + t1);
    lemma_strip(l1, t1);
    lemma_json_string_round_trip(row.timezone_name, t2);
    lemma_strip(l2, t3);
    lemma_nick_round_trip(row.timezone_nickname, t4);
    lemma_strip(l3, t5);
    lemma_json_string_round_trip(row.displayed_name, t6);
    lemma_strip(l4, t7);
    lemma_uint_round_trip(row.day_offset as nat, t8);
}

/// A rendered second half reads back as its fields.
proof fn lemma_row_tail_round_trip(row: OutputTimeView, rest: Seq<char>)
    ensures
        spec_parse_row_tail(spec_json_row_tail(row) + rest) == Some(
            ((row.day_offset_str, row.timestamp as int, row.timestring, row.separator), rest),
        ),
{
    let l1 = ",\"day_offset_str\":"@;
    let l2 = ",\"timestamp\":"@;
    let l3 = ",\"timestring\":"@;
    let l4 = ",\"separator\":"@;
    let v1 = spec_json_string(row.day_offset_str);
    let v2 = dec_int(row.timestamp as int);
    let v3 = spec_json_string(row.timestring);
    let v4 = spec_json_bool(row.separator);
    let t9 = rest;
    let t8 = seq!['}'] + t9;
    let t7 = v4 + t8;
    let t6 = l4 + t7;
    let t5 = v3 + t6;
    let t4 = l3 + t5;
    let t3 = v2 + t4;
    let t2 = l2 + t3;
    let t1 = v1 + t2;
    let input = spec_json_row_tail(row) + rest;
    assert(input =~= l1 + t1);
    lemma_strip(l1, t1);
    lemma_json_string_round_trip(row.day_offset_str, t2);
    lemma_strip(l2, t3);
    reveal_strlit(",\"timestring\":");
    assert(t4[0] == ',');
    assert(!is_digit(','));
    lemma_int_round_trip(row.timestamp as int, t4);
    lemma_strip(l3, t5);
    lemma_json_string_round_trip(row.timestring, t6);
    lemma_strip(l4, t7);
    lemma_bool_round_trip(row.separator, t8);
    lemma_strip(seq!['}'], t9);
}

/// A rendered row object reads back as the row.
pub proof fn lemma_json_row_round_trip(row: OutputTimeView, rest: Seq<char>)
    ensures
        spec_parse_row(spec_json_row(row) + rest) == Some((row, rest)),
{
    let tail_rest = spec_json_row_tail(row) + rest;
    let input = spec_json_row(row) + rest;
    lemma_concat_associative(spec_json_row_head(row), spec_json_row_tail(row), rest);
    assert(input == spec_json_row_head(row) + tail_rest);
    reveal_strlit(",\"day_offset_str\":");
    assert(spec_json_row_tail(row)[0] == ',');
    assert(tail_rest.len() > 0);
    assert(tail_rest[0] == ',');
    assert(!is_digit(','));
    lemma_row_head_round_trip(row, tail_rest);
    lemma_row_tail_round_trip(row, rest);
    assert((row.day_offset as int) as u32 == row.day_offset);
    assert((row.timestamp as int) as i64 == row.timestamp);
}

/// Reads one or more row objects joined by commas; the fuel bounds the
/// recursion and any value at least the row count suffices.
pub open spec fn spec_parse_items(s: Seq<char>, fuel: nat) -> Option<
    (Seq<OutputTimeView>, Seq<char>),
>
    decreases fuel,
{
    match spec_parse_row(s) {
        None => None,
        Some((row, r)) => {
            if r.len() > 0 && r[0] == ',' {
                if fuel == 0 {
                    None
                } else {
                    match spec_parse_items(r.skip(1), (fuel - 1) as nat) {
                        Some((rows, r2)) => Some((seq![row] + rows, r2)),
                        None => None,
                    }
                }
            } else {
                Some((seq![row], r))
            }
        },
    }
}

/// Reads a whole rendered row list: brackets around the joined rows.
pub open spec fn spec_parse_rows(s: Seq<char>) -> Option<(Seq<OutputTimeView>, Seq<char>)> {
    if s.len() >= 2 && s[0] == '[' && s[1] == ']' {
        Some((Seq::empty(), s.skip(2)))
    } else if s.len() > 0 && s[0] == '[' {
        match spec_parse_items(s.skip(1), s.len() as nat) {
            Some((rows, r)) => if r.len() > 0 && r[0] == ']' {
                Some((rows, r.skip(1)))
            } else {
                None
            },
            None => None,
        }
    } else {
        None
    }
}

/// The joined rows read from the front: the first row, a comma, the rest.
proof fn lemma_json_items_unfold_front(rows: Seq<OutputTimeView>)
    requires
        rows.len() >= 2,
    ensures
        spec_json_items(rows) == spec_json_row(rows[0]) + seq![','] + spec_json_items(
            rows.skip(1),
        ),
    decreases rows.len(),
{
    if rows.len() == 2 {
        assert(rows.drop_last() =~= seq![rows[0]]);
        assert(rows.skip(1) =~= seq![rows[1]]);
        assert(spec_json_items(rows.drop_last()) == spec_json_row(rows[0]));
        assert(spec_json_items(rows.skip(1)) == spec_json_row(rows[1]));
        assert(rows.last() == rows[1]);
    } else {
        let rd = rows.drop_last();
        lemma_json_items_unfold_front(rd);
        assert(rows.skip(1).drop_last() =~= rd.skip(1));
        assert(rows.skip(1).last() == rows.last());
        assert(rows.skip(1).len() >= 2);
        assert(rd[0] == rows[0]);
        assert(spec_json_items(rows) == spec_json_items(rd) + seq![','] + spec_json_row(
            rows.last(),
        ));
        assert(spec_json_items(rows.skip(1)) == spec_json_items(rd.skip(1)) + seq![',']
            + spec_json_row(rows.last()));
        assert(spec_json_items(rows) =~= spec_json_row(rows[0]) + seq![','] + spec_json_items(
            rows.skip(1),
        ));
    }
}

/// Joined rows followed by anything but a comma read back as the rows.
proof fn lemma_items_round_trip(rows: Seq<OutputTimeView>, rest: Seq<char>, fuel: nat)
    requires
        rows.len() >= 1,
        fuel >= rows.len(),
        rest.len() > 0,
        rest[0] != ',',
    ensures
        spec_parse_items(spec_json_items(rows) + rest, fuel) == Some((rows, rest)),
    decreases rows.len(),
{
    if rows.len() == 1 {
        assert(spec_json_items(rows) == spec_json_row(rows[0]));
        lemma_json_row_round_trip(rows[0], rest);
        assert(seq![rows[0]] =~= rows);
    } else {
        lemma_json_items_unfold_front(rows);
        let inner = spec_json_items(rows.skip(1)) + rest;
        let after_row = seq![','] + inner;
        let input = spec_json_items(rows) + rest;
        lemma_concat_associative(
            spec_json_row(rows[0]) + seq![','],
            spec_json_items(rows.skip(1)),
            rest,
        );
        lemma_concat_associative(spec_json_row(rows[0]), seq![','], inner);
        assert(input == spec_json_row(rows[0]) + after_row);
        lemma_json_row_round_trip(rows[0], after_row);
        assert(after_row[0] == ',');
        assert(after_row.skip(1) =~= inner);
        lemma_items_round_trip(rows.skip(1), rest, (fuel - 1) as nat);
        assert(seq![rows[0]] + rows.skip(1) =~= rows);
    }
}

/// Every row renders to at least one character, so the joined rows are at
/// least as long as the row count.
proof fn lemma_json_items_len(rows: Seq<OutputTimeView>)
    ensures
        spec_json_items(rows).len() >= rows.len(),
    decreases rows.len(),
{
    reveal_strlit("{\"timezone_name\":");
    if rows.len() == 1 {
        assert(spec_json_row_head(rows[0]).len() >= 1);
    } else if rows.len() > 1 {
        lemma_json_items_len(rows.drop_last());
        assert(spec_json_row_head(rows.last()).len() >= 1);
    }
}

/// Law: the compact JSON encoding round-trips.  Parsing a rendered row
/// list reconstructs exactly the rows that were rendered, with nothing
/// left over.
pub proof fn lemma_render_json_round_trip(rows: Seq<OutputTimeView>)
    ensures
        spec_parse_rows(spec_json(rows)) == Some((rows, Seq::<char>::empty())),
{
    let input = spec_json(rows);
    if rows.len() == 0 {
        assert(spec_json_items(rows) == Seq::<char>::empty());
        assert(input =~= seq!['[', ']']);
        assert(input.skip(2) =~= Seq::<char>::empty());
    } else {
        reveal_strlit("{\"timezone_name\":");
        let items = spec_json_items(rows);
        let inner = items + seq![']'];
        assert(input =~= seq!['['] + inner);
        assert(input[0] == '[');
        // a non-empty list opens with a row object, never with `]`
        if rows.len() == 1 {
            assert(items == spec_json_row(rows[0]));
            assert(spec_json_row(rows[0])[0] == '{');
        } else {
            lemma_json_items_unfold_front(rows);
            assert(items[0] == spec_json_row(rows[0])[0]);
            assert(spec_json_row(rows[0])[0] == '{');
        }
        assert(input[1] == items[0]);
        assert(input[1] != ']');
        lemma_json_items_len(rows);
        assert(input.skip(1) =~= inner);
        assert(input.len() as nat >= rows.len());
        lemma_items_round_trip(rows, seq![']'], input.len() as nat);
        assert(spec_parse_items(inner, input.len() as nat) == Some((rows, seq![']'])));
        assert(seq![']'].skip(1) =~= Seq::<char>::empty());
    }
}

/// Law: rendering a projection as JSON and parsing the output back yields
/// a row list with exactly the original field values.
pub proof fn lemma_render_round_trip(ct: CurTime, rows: Seq<OutputTimeView>)
    ensures
        spec_parse_rows(spec_render(ct, rows, OutputFormat::Json)) == Some(
            (rows, Seq::<char>::empty()),
        ),
{
    lemma_render_json_round_trip(rows);
}

} // verus!
