//! The whole pipeline of one invocation: resolve the anchor query and the
//! time text, project the instant over the saved-zone list, and render.

use vstd::prelude::*;
use crate::config::names_view;
use crate::lookup::lemma_lookup_outcome_unique;
use crate::lookup::lookup_outcome;
use crate::lookup::lookup_zone;
use crate::model::CurTime;
use crate::model::LocalNow;
use crate::model::OutputFormat;
use crate::model::SavedDefines;
use crate::model::SavedDefinesView;
use crate::model::opt_text;
use crate::parse::SpecTimeText;
use crate::project::project;
use crate::project::spec_raw_rows;
use crate::project::spec_sort_rows;
use crate::render::render;
use crate::render::spec_render;
use crate::resolve::get_comparison_date_time;
use crate::resolve::resolved_instant_ok;
use crate::resolve::spec_time_option;
use crate::tzdb::tz_instant_of;

verus! {

/// The anchor a zone query resolves to: the lookup's outcome for a present
/// query, no anchor for an absent one.
pub open spec fn anchor_outcome(
    tzq: Option<String>,
    d: SavedDefinesView,
    catalog: Seq<String>,
    anchor: Option<Seq<char>>,
) -> bool {
    match (tzq, anchor) {
        (Some(q), a) => lookup_outcome(q@, d, catalog, a),
        (None, None) => true,
        (None, Some(_)) => false,
    }
}

/// Any two anchors consistent with the same query, list and catalog are
/// equal: the anchor is a function of those inputs.
proof fn lemma_anchor_outcome_unique(
    tzq: Option<String>,
    d: SavedDefinesView,
    catalog: Seq<String>,
    a1: Option<Seq<char>>,
    a2: Option<Seq<char>>,
)
    requires
        anchor_outcome(tzq, d, catalog, a1),
        anchor_outcome(tzq, d, catalog, a2),
    ensures
        a1 == a2,
{
    match tzq {
        Some(q) => lemma_lookup_outcome_unique(q@, d, catalog, a1, a2),
        None => {},
    }
}

/// Renders the multi-zone view of one invocation.
///
/// A present anchor query is resolved against nicknames and the catalog; a
/// query matching nothing leaves the view unanchored.  The time text is
/// resolved to an instant on today's date, projected into every saved
/// zone, and the rows are rendered in the requested encoding.  `None`
/// exactly when the instant cannot be resolved — always when the time text
/// is invalid, and, for a parsed text read in an anchor zone, exactly when
/// the zone database yields no instant for the figures.
pub fn render_time(
    timezone_input: Option<String>,
    time: Option<String>,
    output_format: OutputFormat,
    defines: &SavedDefines,
    catalog: &Vec<String>,
    now: &LocalNow,
) -> (r: Option<String>)
    requires
        now.well_formed(),
    ensures
        spec_time_option(opt_text(time)) is Invalid ==> r is None,
        match r {
            Some(out) => exists|anchor: Option<Seq<char>>, ct: CurTime|
                {
                    &&& #[trigger] resolved_instant_ok(opt_text(time), anchor, *now, ct)
                    &&& anchor_outcome(timezone_input, defines@, catalog@, anchor)
                    &&& out@ == spec_render(
                        ct,
                        spec_sort_rows(spec_raw_rows(names_view(catalog@), defines@, ct)),
                        output_format,
                    )
                },
            None => true,
        },
        // when the text parses and the query anchors it to a zone, the zone
        // database alone decides success
        forall|anchor: Option<Seq<char>>|
            #[trigger] anchor_outcome(timezone_input, defines@, catalog@, anchor) ==> match (
                spec_time_option(opt_text(time)),
                anchor,
            ) {
                (SpecTimeText::Explicit(h, mi, s), Some(z)) => r is Some <==> tz_instant_of(
                    z,
                    now.year as int,
                    now.month as int,
                    now.day as int,
                    h,
                    mi,
                    s,
                ) is Some,
                _ => true,
            },
{
    let anchor: Option<String> = match &timezone_input {
        Some(q) => lookup_zone(q, defines, catalog),
        None => None,
    };
    let ghost anchor_view = opt_text(anchor);
    let ghost time_view = opt_text(time);
    proof {
        assert(anchor_outcome(timezone_input, defines@, catalog@, anchor_view));
    }
    let ct = match get_comparison_date_time(time, anchor, now) {
        Ok(ct) => ct,
        Err(_) => {
            proof {
                assert forall|anchor2: Option<Seq<char>>|
                    #[trigger] anchor_outcome(
                        timezone_input,
                        defines@,
                        catalog@,
                        anchor2,
                    ) implies match (spec_time_option(time_view), anchor2) {
                    (SpecTimeText::Explicit(h, mi, s), Some(z)) => !(tz_instant_of(
                        z,
                        now.year as int,
                        now.month as int,
                        now.day as int,
                        h,
                        mi,
                        s,
                    ) is Some),
                    _ => true,
                } by {
                    lemma_anchor_outcome_unique(
                        timezone_input,
                        defines@,
                        catalog@,
                        anchor2,
                        anchor_view,
                    );
                }
            }
            return None;
        },
    };
    let rows = project(&ct, defines, catalog);
    let out = render(&ct, &rows, output_format);
    proof {
        assert(resolved_instant_ok(time_view, anchor_view, *now, ct));
        assert forall|anchor2: Option<Seq<char>>|
            #[trigger] anchor_outcome(timezone_input, defines@, catalog@, anchor2) implies match (
            spec_time_option(time_view),
            anchor2,
        ) {
            (SpecTimeText::Explicit(h, mi, s), Some(z)) => tz_instant_of(
                z,
                now.year as int,
                now.month as int,
                now.day as int,
                h,
                mi,
                s,
            ) is Some,
            _ => true,
        } by {
            lemma_anchor_outcome_unique(timezone_input, defines@, catalog@, anchor2, anchor_view);
        }
    }
    Some(out)
}

} // verus!
