//! The multi-zone projector: one resolved instant fanned out over every
//! saved zone, with per-zone wall-clock figures, a signed day-offset label
//! and a naive-timestamp sort key; rows are ordered by that key.

use vstd::prelude::*;
use crate::calendar::convert_date_to_timestamp;
use crate::calendar::naive_timestamp;
use crate::calendar::spec_day_index;
use crate::calendar::spec_naive_timestamp;
use crate::chars::push_char;
use crate::config::find_timezone_index;
use crate::config::names_view;
use crate::model::CurTime;
use crate::model::OutputTime;
use crate::model::OutputTimeView;
use crate::model::SavedDefines;
use crate::model::SavedDefinesView;
use crate::model::SavedTimezoneView;
use crate::model::rows_view;
use crate::numfmt::dec_digits;
use crate::numfmt::hms_string;
use crate::numfmt::spec_timestring;
use crate::numfmt::u64_to_dec;
use crate::tzdb::zone_civil;
use crate::tzdb::zone_civil_of;

verus! {

/// The day difference shown for a projected date against the anchor date:
/// zero when the days of month agree, else the distance of the two
/// truncated day indices.
pub open spec fn spec_day_diff(
    conv_day: int,
    conv_idx: int,
    anchor_day: int,
    anchor_idx: int,
) -> int {
    if conv_day == anchor_day {
        0
    } else if conv_idx > anchor_idx {
        conv_idx - anchor_idx
    } else {
        anchor_idx - conv_idx
    }
}

/// The day-offset label: empty when the days of month agree, else the
/// signed difference with `day` singular exactly at one.
pub open spec fn spec_offset_label(
    conv_day: int,
    conv_idx: int,
    anchor_day: int,
    anchor_idx: int,
) -> Seq<char> {
    if conv_day == anchor_day {
        Seq::empty()
    } else {
        let d = spec_day_diff(conv_day, conv_idx, anchor_day, anchor_idx);
        let sign: char = if conv_idx > anchor_idx {
            '+'
        } else {
            '-'
        };
        seq!['(', sign] + dec_digits(d as nat) + (if d == 1 {
            " day)"@
        } else {
            " days)"@
        })
    }
}

/// Builds the day difference and its label.
pub fn day_offset_label(conv_day: u32, conv_idx: u32, anchor_day: u32, anchor_idx: u32) -> (r: (
    u32,
    String,
))
    ensures
        r.0 as int == spec_day_diff(
            conv_day as int,
            conv_idx as int,
            anchor_day as int,
            anchor_idx as int,
        ),
        r.1@ == spec_offset_label(
            conv_day as int,
            conv_idx as int,
            anchor_day as int,
            anchor_idx as int,
        ),
{
    if conv_day == anchor_day {
        let s = String::new();
        (0, s)
    } else {
        let mut out = String::new();
        push_char(&mut out, '(');
        let diff: u32;
        if conv_idx > anchor_idx {
            diff = conv_idx - anchor_idx;
            push_char(&mut out, '+');
        } else {
            diff = anchor_idx - conv_idx;
            push_char(&mut out, '-');
        }
        let digits = u64_to_dec(diff as u64);
        out.append(digits.as_str());
        if diff == 1 {
            out.append(" day)");
        } else {
            out.append(" days)");
        }
        proof {
            assert(out@ =~= spec_offset_label(
                conv_day as int,
                conv_idx as int,
                anchor_day as int,
                anchor_idx as int,
            ));
        }
        (diff, out)
    }
}

/// The display name of an entry: `[nickname] zone` with a nickname, the
/// bare zone name without one.
pub open spec fn spec_displayed_name(name: Seq<char>, nick: Option<Seq<char>>) -> Seq<char> {
    match nick {
        Some(n) => seq!['['] + n + seq![']', ' '] + name,
        None => name,
    }
}

/// Builds the display name of an entry.
pub fn displayed_name_of(name: &String, nick: &Option<String>) -> (r: String)
    ensures
        r@ == spec_displayed_name(
            name@,
            match nick {
                Some(n) => Some(n@),
                None => None,
            },
        ),
{
    match nick {
        Some(n) => {
            let mut s = String::new();
            push_char(&mut s, '[');
            s.append(n.as_str());
            push_char(&mut s, ']');
            push_char(&mut s, ' ');
            s.append(name.as_str());
            proof {
                assert(s@ =~= seq!['['] + n@ + seq![']', ' '] + name@);
            }
            s
        },
        None => name.clone(),
    }
}

/// The row of one saved entry for one resolved instant, or nothing when
/// the zone database does not recognize the entry's name.
pub open spec fn spec_row(entry: SavedTimezoneView, ct: CurTime) -> Option<OutputTimeView> {
    match zone_civil_of(entry.timezone_name, ct.epoch_seconds as int) {
        None => None,
        Some(c) => {
            let conv_idx = spec_day_index(c.0, c.1);
            let anchor_idx = spec_day_index(ct.year as int, ct.ordinal0 as int);
            Some(
                OutputTimeView {
                    timezone_name: entry.timezone_name,
                    timezone_nickname: entry.nickname,
                    displayed_name: spec_displayed_name(entry.timezone_name, entry.nickname),
                    day_offset: spec_day_diff(c.2, conv_idx, ct.day as int, anchor_idx) as u32,
                    day_offset_str: spec_offset_label(c.2, conv_idx, ct.day as int, anchor_idx),
                    timestamp: spec_naive_timestamp(c.0, c.1, c.3, c.4, c.5) as i64,
                    timestring: spec_timestring(c.3, c.4, c.5),
                    separator: entry.separator,
                },
            )
        },
    }
}

/// Builds the row of one saved entry for one resolved instant.
fn build_row(name: &String, nick: &Option<String>, separator: bool, ct: &CurTime) -> (r: Option<
    OutputTime,
>)
    requires
        ct.well_formed(),
    ensures
        match r {
            Some(row) => spec_row(
                SavedTimezoneView {
                    timezone_name: name@,
                    nickname: match nick {
                        Some(n) => Some(n@),
                        None => None,
                    },
                    separator,
                },
                *ct,
            ) == Some(row@),
            None => spec_row(
                SavedTimezoneView {
                    timezone_name: name@,
                    nickname: match nick {
                        Some(n) => Some(n@),
                        None => None,
                    },
                    separator,
                },
                *ct,
            ) is None,
        },
{
    let c = match zone_civil(name.as_str(), ct.epoch_seconds) {
        Some(c) => c,
        None => {
            return None;
        },
    };
    let conv_idx = convert_date_to_timestamp(c.0, c.1);
    let anchor_idx = convert_date_to_timestamp(ct.year, ct.ordinal0 as u32);
    let (day_offset, day_offset_str) = day_offset_label(c.2, conv_idx, ct.day as u32, anchor_idx);
    let timestamp = naive_timestamp(c.0, c.1, c.3, c.4, c.5);
    let timestring = hms_string(c.3 as u8, c.4 as u8, c.5 as u8);
    let nickname = match nick {
        Some(n) => Some(n.clone()),
        None => None,
    };
    let row = OutputTime {
        timezone_name: name.clone(),
        timezone_nickname: nickname,
        displayed_name: displayed_name_of(name, nick),
        day_offset,
        day_offset_str,
        timestamp,
        timestring,
        separator,
    };
    Some(row)
}

/// The first list position carrying exactly this zone name, scanning from
/// `i`.
pub open spec fn spec_find_from(tzs: Seq<SavedTimezoneView>, name: Seq<char>, i: int) -> Option<
    int,
>
    decreases tzs.len() - i,
{
    if i < 0 || i >= tzs.len() {
        None
    } else if tzs[i].timezone_name == name {
        Some(i)
    } else {
        spec_find_from(tzs, name, i + 1)
    }
}

/// A scan that has seen no match up to `i` finds the same entry as a scan
/// from the start.
proof fn lemma_find_from_prefix(tzs: Seq<SavedTimezoneView>, name: Seq<char>, i: int)
    requires
        0 <= i <= tzs.len(),
        forall|j: int| 0 <= j < i ==> #[trigger] tzs[j].timezone_name != name,
    ensures
        spec_find_from(tzs, name, 0) == spec_find_from(tzs, name, i),
    decreases i,
{
    if i > 0 {
        lemma_find_from_prefix(tzs, name, i - 1);
        lemma_find_from_step(tzs, name, i - 1);
    }
}

/// Unfolds one step of the scan at a non-matching position.
proof fn lemma_find_from_step(tzs: Seq<SavedTimezoneView>, name: Seq<char>, i: int)
    requires
        0 <= i < tzs.len(),
        tzs[i].timezone_name != name,
    ensures
        spec_find_from(tzs, name, i) == spec_find_from(tzs, name, i + 1),
{
}

/// The saved entry used for a catalog name: the first whose zone name is
/// exactly the catalog name.
pub open spec fn spec_entry_for(d: SavedDefinesView, name: Seq<char>) -> Option<SavedTimezoneView> {
    match spec_find_from(d.timezones, name, 0) {
        Some(i) => Some(d.timezones[i]),
        None => None,
    }
}

/// The unsorted rows of a catalog suffix, one per saved recognized zone, in
/// catalog order.
pub open spec fn spec_raw_rows_from(
    names: Seq<Seq<char>>,
    d: SavedDefinesView,
    ct: CurTime,
    i: int,
) -> Seq<OutputTimeView>
    decreases names.len() - i,
{
    if i < 0 || i >= names.len() {
        Seq::empty()
    } else {
        let head: Seq<OutputTimeView> = match spec_entry_for(d, names[i]) {
            Some(e) => match spec_row(e, ct) {
                Some(row) => seq![row],
                None => Seq::empty(),
            },
            None => Seq::empty(),
        };
        head + spec_raw_rows_from(names, d, ct, i + 1)
    }
}

/// The unsorted rows of the whole catalog.
pub open spec fn spec_raw_rows(names: Seq<Seq<char>>, d: SavedDefinesView, ct: CurTime) -> Seq<
    OutputTimeView,
> {
    spec_raw_rows_from(names, d, ct, 0)
}

/// Inserts a row after every row whose timestamp is not larger: the stable
/// placement.
pub open spec fn spec_insert_row(row: OutputTimeView, s: Seq<OutputTimeView>) -> Seq<
    OutputTimeView,
>
    decreases s.len(),
{
    if s.len() == 0 {
        seq![row]
    } else if row.timestamp < s[0].timestamp {
        seq![row] + s
    } else {
        seq![s[0]] + spec_insert_row(row, s.skip(1))
    }
}

/// The rows sorted by timestamp, stably: each row inserted after its equals.
pub open spec fn spec_sort_rows(s: Seq<OutputTimeView>) -> Seq<OutputTimeView>
    decreases s.len(),
{
    if s.len() == 0 {
        Seq::empty()
    } else {
        spec_insert_row(s.last(), spec_sort_rows(s.drop_last()))
    }
}

/// The stable insertion point is the first position with a larger
/// timestamp.
proof fn lemma_spec_insert_at(row: OutputTimeView, s: Seq<OutputTimeView>, k: int)
    requires
        0 <= k <= s.len(),
        forall|j: int| 0 <= j < k ==> #[trigger] s[j].timestamp <= row.timestamp,
        k < s.len() ==> s[k].timestamp > row.timestamp,
    ensures
        spec_insert_row(row, s) == s.take(k) + seq![row] + s.skip(k),
    decreases k,
{
    if k == 0 {
        if s.len() == 0 {
            assert(spec_insert_row(row, s) =~= s.take(0) + seq![row] + s.skip(0));
        } else {
            assert(spec_insert_row(row, s) =~= s.take(0) + seq![row] + s.skip(0));
        }
    } else {
        assert(s[0].timestamp <= row.timestamp);
        let tail = s.skip(1);
        assert forall|j: int| 0 <= j < k - 1 implies #[trigger] tail[j].timestamp
            <= row.timestamp by {
            assert(tail[j] == s[j + 1]);
        }
        if k - 1 < tail.len() {
            assert(tail[k - 1] == s[k]);
        }
        lemma_spec_insert_at(row, tail, k - 1);
        assert(spec_insert_row(row, s) =~= s.take(k) + seq![row] + s.skip(k));
    }
}

/// Inserts a row into a vector at the stable position for its timestamp.
fn insert_row_sorted(rows: &mut Vec<OutputTime>, row: OutputTime)
    ensures
        rows_view(final(rows)@) == spec_insert_row(row@, rows_view(old(rows)@)),
{
    let n = rows.len();
    let mut k: usize = 0;
    while k < n && rows[k].timestamp <= row.timestamp
        invariant
            n == rows@.len(),
            k <= n,
            *rows == *old(rows),
            forall|j: int| 0 <= j < k ==> #[trigger] rows@[j].timestamp <= row.timestamp,
        decreases n - k,
    {
        k += 1;
    }
    proof {
        assert forall|j: int| 0 <= j < k implies #[trigger] rows_view(rows@)[j].timestamp
            <= row@.timestamp by {
            assert(rows_view(rows@)[j] == rows@[j]@);
        }
        if k < n {
            assert(rows_view(rows@)[k as int] == rows@[k as int]@);
        }
        lemma_spec_insert_at(row@, rows_view(rows@), k as int);
    }
    let ghost pre = rows_view(rows@);
    rows.insert(k, row);
    proof {
        assert(rows_view(rows@) =~= pre.take(k as int) + seq![row@] + pre.skip(k as int));
    }
}

/// Projects a resolved instant into every saved zone.
///
/// Catalog zones are scanned in order; each that is saved on the list and
/// recognized by the database yields one row, and the rows are ordered by
/// their naive timestamps, stably.  The result is a function of the
/// arguments alone: an unrecognized saved zone is skipped, and an empty
/// list yields an empty projection.
pub fn project(ct: &CurTime, defines: &SavedDefines, catalog: &Vec<String>) -> (r: Vec<OutputTime>)
    requires
        ct.well_formed(),
    ensures
        rows_view(r@) == spec_sort_rows(spec_raw_rows(names_view(catalog@), defines@, *ct)),
{
    let mut raw: Vec<OutputTime> = Vec::new();
    let n = catalog.len();
    let mut i: usize = 0;
    while i < n
        invariant
            ct.well_formed(),
            n == catalog@.len(),
            i <= n,
            rows_view(raw@) + spec_raw_rows_from(names_view(catalog@), defines@, *ct, i as int)
                == spec_raw_rows(names_view(catalog@), defines@, *ct),
        decreases n - i,
    {
        proof {
            assert(names_view(catalog@)[i as int] == catalog@[i as int]@);
        }
        match find_timezone_index(defines, &catalog[i]) {
            Some(e) => {
                proof {
                    lemma_find_from_prefix(defines@.timezones, catalog@[i as int]@, e as int);
                    assert(spec_find_from(defines@.timezones, catalog@[i as int]@, 0) == Some(
                        e as int,
                    ));
                }
                let entry_name = &defines.timezones[e].timezone_name;
                let entry_nick = &defines.timezones[e].nickname;
                let entry_sep = defines.timezones[e].separator;
                proof {
                    assert(defines@.timezones[e as int] == defines.timezones@[e as int]@);
                }
                match build_row(&catalog[i], entry_nick, entry_sep, ct) {
                    Some(row) => {
                        let ghost pre = rows_view(raw@);
                        raw.push(row);
                        proof {
                            assert(rows_view(raw@) =~= pre.push(row@));
                            assert(rows_view(raw@) + spec_raw_rows_from(
                                names_view(catalog@),
                                defines@,
                                *ct,
                                i + 1,
                            ) =~= spec_raw_rows(names_view(catalog@), defines@, *ct));
                        }
                    },
                    None => {
                        proof {
                            assert(rows_view(raw@) + spec_raw_rows_from(
                                names_view(catalog@),
                                defines@,
                                *ct,
                                i + 1,
                            ) =~= spec_raw_rows(names_view(catalog@), defines@, *ct));
                        }
                    },
                }
            },
            None => {
                proof {
                    lemma_find_from_prefix(
                        defines@.timezones,
                        catalog@[i as int]@,
                        defines@.timezones.len() as int,
                    );
                    assert(spec_find_from(defines@.timezones, catalog@[i as int]@, 0) is None);
                    assert(rows_view(raw@) + spec_raw_rows_from(
                        names_view(catalog@),
                        defines@,
                        *ct,
                        i + 1,
                    ) =~= spec_raw_rows(names_view(catalog@), defines@, *ct));
                }
            },
        }
        i += 1;
    }
    proof {
        assert(rows_view(raw@) =~= spec_raw_rows(names_view(catalog@), defines@, *ct));
    }
    let mut sorted: Vec<OutputTime> = Vec::new();
    let ghost raw_rows = rows_view(raw@);
    let ghost m: int = raw_rows.len() as int;
    let mut raw = raw;
    proof {
        assert(m == raw@.len());
        assert(raw_rows.skip(0) =~= raw_rows);
        assert(raw_rows.take(0).len() == 0);
        assert(rows_view(sorted@) =~= spec_sort_rows(raw_rows.take(0)));
    }
    while raw.len() > 0
        invariant
            raw@.len() <= m,
            m == raw_rows.len(),
            rows_view(raw@) == raw_rows.skip(m - raw@.len()),
            rows_view(sorted@) == spec_sort_rows(raw_rows.take(m - raw@.len())),
        decreases raw.len(),
    {
        let ghost j: int = m - raw@.len();
        proof {
            assert(0 <= j < m);
            assert(rows_view(raw@)[0] == raw@[0]@);
            assert(raw_rows.skip(j)[0] == raw_rows[j]);
            assert(raw_rows.take(j + 1).drop_last() =~= raw_rows.take(j));
            assert(raw_rows.take(j + 1).last() == raw_rows[j]);
        }
        let ghost old_raw = raw@;
        let row = raw.remove(0);
        proof {
            assert forall|k: int| 0 <= k < raw@.len() implies rows_view(raw@)[k] == raw_rows.skip(
                j + 1,
            )[k] by {
                assert(rows_view(raw@)[k] == raw@[k]@);
                assert(raw@[k] == old_raw.remove(0)[k]);
                assert(old_raw.remove(0)[k] == old_raw[k + 1]);
                assert(rows_view(old_raw)[k + 1] == old_raw[k + 1]@);
                assert(rows_view(old_raw)[k + 1] == raw_rows.skip(j)[k + 1]);
                assert(raw_rows.skip(j)[k + 1] == raw_rows[j + 1 + k]);
                assert(raw_rows.skip(j + 1)[k] == raw_rows[j + 1 + k]);
            }
            assert(rows_view(raw@) =~= raw_rows.skip(j + 1));
        }
        insert_row_sorted(&mut sorted, row);
    }
    proof {
        assert(raw_rows.take(m as int) =~= raw_rows);
    }
    sorted
}

} // verus!
