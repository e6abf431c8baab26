//! Laws of the projector stated on their own: determinism of the
//! projection, the ordering of its rows, and the sign convention of the
//! day-offset labels.

use vstd::prelude::*;
use crate::model::CurTime;
use crate::model::OutputTimeView;
use crate::model::SavedDefinesView;
use crate::numfmt::dec_digits;
use crate::project::spec_day_diff;
use crate::project::spec_insert_row;
use crate::project::spec_offset_label;
use crate::project::spec_raw_rows;
use crate::project::spec_sort_rows;

verus! {

/// Non-decreasing timestamps.
pub open spec fn rows_sorted(s: Seq<OutputTimeView>) -> bool {
    forall|i: int, j: int|
        0 <= i <= j < s.len() ==> #[trigger] s[i].timestamp <= #[trigger] s[j].timestamp
}

/// Every timestamp of a stable insertion is bounded below by a bound on the
/// inserted row and the hosts.
proof fn lemma_insert_row_min(row: OutputTimeView, s: Seq<OutputTimeView>, b: i64)
    requires
        b <= row.timestamp,
        forall|k: int| 0 <= k < s.len() ==> b <= #[trigger] s[k].timestamp,
    ensures
        forall|k: int|
            0 <= k < spec_insert_row(row, s).len() ==> b <= #[trigger] spec_insert_row(
                row,
                s,
            )[k].timestamp,
    decreases s.len(),
{
    if s.len() == 0 {
    } else if row.timestamp < s[0].timestamp {
    } else {
        lemma_insert_row_min(row, s.skip(1), b);
        assert forall|k: int| 0 <= k < spec_insert_row(row, s).len() implies b
            <= #[trigger] spec_insert_row(row, s)[k].timestamp by {
            if k > 0 {
                assert(spec_insert_row(row, s)[k] == spec_insert_row(row, s.skip(1))[k - 1]);
            }
        }
    }
}

/// Stable insertion preserves the ordering.
proof fn lemma_insert_row_sorted(row: OutputTimeView, s: Seq<OutputTimeView>)
    requires
        rows_sorted(s),
    ensures
        rows_sorted(spec_insert_row(row, s)),
    decreases s.len(),
{
    if s.len() == 0 {
    } else if row.timestamp < s[0].timestamp {
        assert forall|i: int, j: int|
            0 <= i <= j < spec_insert_row(row, s).len() implies #[trigger] spec_insert_row(
            row,
            s,
        )[i].timestamp <= #[trigger] spec_insert_row(row, s)[j].timestamp by {
            if i > 0 {
                assert(spec_insert_row(row, s)[i] == s[i - 1]);
            }
            if j > 0 {
                assert(spec_insert_row(row, s)[j] == s[j - 1]);
            }
        }
    } else {
        assert forall|k: int| 0 <= k < s.skip(1).len() implies s[0].timestamp
            <= #[trigger] s.skip(1)[k].timestamp by {
            assert(s.skip(1)[k] == s[k + 1]);
        }
        assert forall|i: int, j: int| 0 <= i <= j < s.skip(1).len() implies #[trigger] s.skip(1)[
            i
        ].timestamp <= #[trigger] s.skip(1)[j].timestamp by {
            assert(s.skip(1)[i] == s[i + 1]);
            assert(s.skip(1)[j] == s[j + 1]);
        }
        lemma_insert_row_sorted(row, s.skip(1));
        lemma_insert_row_min(row, s.skip(1), s[0].timestamp);
        assert forall|i: int, j: int|
            0 <= i <= j < spec_insert_row(row, s).len() implies #[trigger] spec_insert_row(
            row,
            s,
        )[i].timestamp <= #[trigger] spec_insert_row(row, s)[j].timestamp by {
            if i > 0 {
                assert(spec_insert_row(row, s)[i] == spec_insert_row(row, s.skip(1))[i - 1]);
            }
            if j > 0 {
                assert(spec_insert_row(row, s)[j] == spec_insert_row(row, s.skip(1))[j - 1]);
            }
        }
    }
}

/// Law: however the raw rows are ordered, the projected output is ordered
/// by non-decreasing timestamp.
pub proof fn lemma_sort_rows_sorted(s: Seq<OutputTimeView>)
    ensures
        rows_sorted(spec_sort_rows(s)),
    decreases s.len(),
{
    if s.len() > 0 {
        lemma_sort_rows_sorted(s.drop_last());
        lemma_insert_row_sorted(s.last(), spec_sort_rows(s.drop_last()));
    }
}

/// Law: the projection is a pure function of the saved-zone list, the
/// catalog and the resolved instant.  Any two row lists meeting the
/// projector's contract for the same inputs are equal, so projecting twice
/// yields identical sequences, in the same order.
pub proof fn lemma_project_deterministic(
    catalog: Seq<Seq<char>>,
    d: SavedDefinesView,
    ct: CurTime,
    r1: Seq<OutputTimeView>,
    r2: Seq<OutputTimeView>,
)
    requires
        r1 == spec_sort_rows(spec_raw_rows(catalog, d, ct)),
        r2 == spec_sort_rows(spec_raw_rows(catalog, d, ct)),
    ensures
        r1 == r2,
{
}

/// Law: the sign convention of the day-offset label.  Equal days of month
/// give an empty label; a projected day index above the anchor's gives a
/// label opening `(+`, one not above gives `(-`; the word `day` is
/// singular exactly at a difference of one.
pub proof fn lemma_day_offset_sign(conv_day: int, conv_idx: int, anchor_day: int, anchor_idx: int)
    ensures
        conv_day == anchor_day ==> spec_offset_label(conv_day, conv_idx, anchor_day, anchor_idx)
            == Seq::<char>::empty(),
        conv_day != anchor_day && conv_idx > anchor_idx ==> spec_offset_label(
            conv_day,
            conv_idx,
            anchor_day,
            anchor_idx,
        ) == seq!['(', '+'] + dec_digits((conv_idx - anchor_idx) as nat) + (if conv_idx - anchor_idx
            == 1 {
            " day)"@
        } else {
            " days)"@
        }),
        conv_day != anchor_day && conv_idx <= anchor_idx ==> spec_offset_label(
            conv_day,
            conv_idx,
            anchor_day,
            anchor_idx,
        ) == seq!['(', '-'] + dec_digits((anchor_idx - conv_idx) as nat) + (if anchor_idx - conv_idx
            == 1 {
            " day)"@
        } else {
            " days)"@
        }),
        spec_day_diff(conv_day, conv_idx, anchor_day, anchor_idx) == if conv_day == anchor_day {
            0
        } else if conv_idx > anchor_idx {
            conv_idx - anchor_idx
        } else {
            anchor_idx - conv_idx
        },
{
}

} // verus!
