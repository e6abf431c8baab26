//! The time-of-day text grammar: a text is split on `:` and, by field
//! count, read as `HH:MM:SS`, `HH:MM` or `HH`.  An empty text and a text
//! with more than three fields fall back to the current time; a one- to
//! three-field text that does not match its pattern is an error.

use vstd::prelude::*;
use crate::chars::digit_val;
use crate::chars::is_digit;
use crate::chars::push_char;

verus! {

/// The fields of `s` split on `':'`: always at least one field, each field
/// free of `':'`.
pub open spec fn split_colons(s: Seq<char>) -> Seq<Seq<char>>
    decreases s.len(),
{
    if s.len() == 0 {
        seq![Seq::empty()]
    } else if s[0] == ':' {
        seq![Seq::<char>::empty()] + split_colons(s.skip(1))
    } else {
        let rest = split_colons(s.skip(1));
        seq![seq![s[0]] + rest[0]] + rest.skip(1)
    }
}

pub proof fn lemma_split_colons_len(s: Seq<char>)
    ensures
        split_colons(s).len() >= 1,
    decreases s.len(),
{
    if s.len() != 0 {
        lemma_split_colons_len(s.skip(1));
    }
}

/// Appending one character either opens a new empty field (for `':'`) or
/// extends the last field.
proof fn lemma_split_colons_push(s: Seq<char>, c: char)
    ensures
        split_colons(s.push(c)) == if c == ':' {
            split_colons(s).push(Seq::<char>::empty())
        } else {
            split_colons(s).update(
                split_colons(s).len() - 1,
                split_colons(s).last().push(c),
            )
        },
    decreases s.len(),
{
    lemma_split_colons_len(s);
    if s.len() == 0 {
        let e = Seq::<char>::empty();
        assert(s =~= e);
        assert(split_colons(e) == seq![e]);
        if c == ':' {
            assert(s.push(c)[0] == ':');
            assert(s.push(c).skip(1) =~= e);
            assert(split_colons(s.push(c)) == seq![e] + split_colons(s.push(c).skip(1)));
            assert(split_colons(s.push(c)) =~~= split_colons(s).push(Seq::<char>::empty()));
        } else {
            assert(s.push(c)[0] == c);
            assert(s.push(c).skip(1) =~= Seq::<char>::empty());
            assert(seq![c] + split_colons(Seq::<char>::empty())[0] =~= seq![c]);
            assert(split_colons(s.push(c)) =~~= split_colons(s).update(
                0,
                split_colons(s).last().push(c),
            ));
        }
    } else {
        lemma_split_colons_push(s.skip(1), c);
        lemma_split_colons_len(s.skip(1));
        assert(s.push(c)[0] == s[0]);
        assert(s.push(c).skip(1) =~= s.skip(1).push(c));
        if c == ':' {
            if s[0] == ':' {
                assert(split_colons(s.push(c)) =~~= split_colons(s).push(Seq::<char>::empty()));
            } else {
                assert(split_colons(s.skip(1).push(c))[0] == split_colons(s.skip(1))[0]);
                assert(split_colons(s.push(c)) =~~= split_colons(s).push(Seq::<char>::empty()));
            }
        } else {
            if s[0] == ':' {
                assert(split_colons(s.push(c)) =~~= split_colons(s).update(
                    split_colons(s).len() - 1,
                    split_colons(s).last().push(c),
                ));
            } else {
                let rest = split_colons(s.skip(1));
                if rest.len() == 1 {
                    assert(split_colons(s.push(c)) =~~= split_colons(s).update(
                        split_colons(s).len() - 1,
                        split_colons(s).last().push(c),
                    ));
                } else {
                    assert(split_colons(s).last() == rest.last());
                    assert(split_colons(s.push(c)) =~~= split_colons(s).update(
                        split_colons(s).len() - 1,
                        split_colons(s).last().push(c),
                    ));
                }
            }
        }
    }
}

/// Splits a text on `':'` into its fields.
pub fn split_time_fields(t: &str) -> (r: Vec<String>)
    ensures
        r@.map_values(|f: String| f@) == split_colons(t@),
        r@.len() >= 1,
{
    let n = t.unicode_len();
    let mut fields: Vec<String> = Vec::new();
    fields.push(String::new());
    proof {
        assert(t@.take(0) =~= Seq::<char>::empty());
        assert(fields@.map_values(|f: String| f@) =~~= split_colons(t@.take(0)));
    }
    let mut i: usize = 0;
    while i < n
        invariant
            n == t@.len(),
            i <= n,
            fields@.len() >= 1,
            fields@.map_values(|f: String| f@) == split_colons(t@.take(i as int)),
        decreases n - i,
    {
        let c = t.get_char(i);
        proof {
            lemma_split_colons_push(t@.take(i as int), c);
            assert(t@.take(i + 1) =~= t@.take(i as int).push(c));
        }
        if c == ':' {
            fields.push(String::new());
            proof {
                assert(fields@.map_values(|f: String| f@) =~~= split_colons(t@.take(i + 1)));
            }
        } else {
            let mut f = fields.pop().unwrap();
            push_char(&mut f, c);
            fields.push(f);
            proof {
                assert(fields@.map_values(|f: String| f@) =~~= split_colons(t@.take(i + 1)));
            }
        }
        i += 1;
    }
    proof {
        assert(t@.take(n as int) =~= t@);
    }
    fields
}

/// A field that the grammar accepts: one or two decimal digits whose value
/// is at most `max`.
pub open spec fn valid_field(f: Seq<char>, max: int) -> bool {
    &&& 1 <= f.len() <= 2
    &&& (forall|i: int| 0 <= i < f.len() ==> is_digit(#[trigger] f[i]))
    &&& field_val(f) <= max
}

/// The numeric value of a one- or two-digit field.
pub open spec fn field_val(f: Seq<char>) -> int {
    if f.len() == 1 {
        digit_val(f[0])
    } else {
        digit_val(f[0]) * 10 + digit_val(f[1])
    }
}

/// Reads a one- or two-digit field, rejecting values above `max`.
fn parse_field(f: &str, max: u8) -> (r: Option<u8>)
    ensures
        match r {
            Some(v) => valid_field(f@, max as int) && v as int == field_val(f@),
            None => !valid_field(f@, max as int),
        },
{
    let n = f.unicode_len();
    if n == 0 || n > 2 {
        return None;
    }
    let c0 = f.get_char(0);
    if !('0' <= c0 && c0 <= '9') {
        return None;
    }
    let d0 = (c0 as u8) - 48;
    if n == 1 {
        if d0 <= max {
            return Some(d0);
        }
        return None;
    }
    let c1 = f.get_char(1);
    if !('0' <= c1 && c1 <= '9') {
        return None;
    }
    let d1 = (c1 as u8) - 48;
    let v = d0 * 10 + d1;
    if v <= max {
        Some(v)
    } else {
        None
    }
}

/// What a time text means: explicit wall-clock figures, a fall-back to the
/// current time, or a rejected text.
pub enum SpecTimeText {
    Explicit(int, int, int),
    Fallback,
    Invalid,
}

/// The grammar: by field count, `HH:MM:SS`, `HH:MM` (second 0) or `HH`
/// (minute and second 0); an empty text or more than three fields fall
/// back; anything else is invalid.
pub open spec fn spec_parse_time_text(s: Seq<char>) -> SpecTimeText {
    let fs = split_colons(s);
    if s.len() == 0 {
        SpecTimeText::Fallback
    } else if fs.len() == 3 {
        if valid_field(fs[0], 23) && valid_field(fs[1], 59) && valid_field(fs[2], 59) {
            SpecTimeText::Explicit(field_val(fs[0]), field_val(fs[1]), field_val(fs[2]))
        } else {
            SpecTimeText::Invalid
        }
    } else if fs.len() == 2 {
        if valid_field(fs[0], 23) && valid_field(fs[1], 59) {
            SpecTimeText::Explicit(field_val(fs[0]), field_val(fs[1]), 0)
        } else {
            SpecTimeText::Invalid
        }
    } else if fs.len() == 1 {
        if valid_field(fs[0], 23) {
            SpecTimeText::Explicit(field_val(fs[0]), 0, 0)
        } else {
            SpecTimeText::Invalid
        }
    } else {
        SpecTimeText::Fallback
    }
}

/// The outcome of reading a time text.
pub enum TimeTextParse {
    /// Hour, minute and second read from the text.
    Explicit(u8, u8, u8),
    /// The text asks for the current time.
    Fallback,
    /// The text matches no accepted pattern.
    Invalid,
}

/// Reads a time text according to the grammar.
pub fn parse_time_text(t: &str) -> (r: TimeTextParse)
    ensures
        match r {
            TimeTextParse::Explicit(h, mi, s) => {
                &&& spec_parse_time_text(t@) == SpecTimeText::Explicit(
                    h as int,
                    mi as int,
                    s as int,
                )
                &&& h < 24
                &&& mi < 60
                &&& s < 60
            },
            TimeTextParse::Fallback => spec_parse_time_text(t@) is Fallback,
            TimeTextParse::Invalid => spec_parse_time_text(t@) is Invalid,
        },
{
    if t.unicode_len() == 0 {
        return TimeTextParse::Fallback;
    }
    let fields = split_time_fields(t);
    proof {
        assert(fields@.map_values(|f: String| f@)[0] == fields@[0]@);
    }
    if fields.len() == 3 {
        proof {
            assert(fields@.map_values(|f: String| f@)[1] == fields@[1]@);
            assert(fields@.map_values(|f: String| f@)[2] == fields@[2]@);
        }
        let h = parse_field(fields[0].as_str(), 23);
        let mi = parse_field(fields[1].as_str(), 59);
        let s = parse_field(fields[2].as_str(), 59);
        match (h, mi, s) {
            (Some(h), Some(mi), Some(s)) => TimeTextParse::Explicit(h, mi, s),
            _ => TimeTextParse::Invalid,
        }
    } else if fields.len() == 2 {
        proof {
            assert(fields@.map_values(|f: String| f@)[1] == fields@[1]@);
        }
        let h = parse_field(fields[0].as_str(), 23);
        let mi = parse_field(fields[1].as_str(), 59);
        match (h, mi) {
            (Some(h), Some(mi)) => TimeTextParse::Explicit(h, mi, 0),
            _ => TimeTextParse::Invalid,
        }
    } else if fields.len() == 1 {
        let h = parse_field(fields[0].as_str(), 23);
        match h {
            Some(h) => TimeTextParse::Explicit(h, 0, 0),
            None => TimeTextParse::Invalid,
        }
    } else {
        TimeTextParse::Fallback
    }
}

} // verus!
