//! Resolution of a free-text zone query against the saved-zone list and
//! the catalog: a nickname match substitutes the entry's canonical name,
//! then the first saved catalog zone whose name contains the term wins.

use vstd::prelude::*;
use crate::chars::contains_ci;
use crate::chars::str_contains_ci;
use crate::config::find_timezone_index;
use crate::config::names_view;
use crate::config::zone_listed;
use crate::model::SavedDefines;
use crate::model::SavedDefinesView;

verus! {

/// `i` is the first list position whose nickname contains the query,
/// ignoring case.
pub open spec fn first_nick_match(q: Seq<char>, d: SavedDefinesView, i: int) -> bool {
    &&& 0 <= i < d.timezones.len()
    &&& match d.timezones[i].nickname {
        Some(n) => contains_ci(n, q),
        None => false,
    }
    &&& forall|k: int|
        0 <= k < i ==> match #[trigger] d.timezones[k].nickname {
            Some(n) => !contains_ci(n, q),
            None => true,
        }
}

/// The effective search term of a query: the canonical name of the first
/// nickname match, or the query itself when no nickname matches.
pub open spec fn effective_term_is(q: Seq<char>, d: SavedDefinesView, term: Seq<char>) -> bool {
    ||| exists|i: int| #[trigger] first_nick_match(q, d, i) && term == d.timezones[i].timezone_name
    ||| {
        &&& term == q
        &&& forall|k: int|
            0 <= k < d.timezones.len() ==> match #[trigger] d.timezones[k].nickname {
                Some(n) => !contains_ci(n, q),
                None => true,
            }
    }
}

/// `j` is the first catalog position that is saved on the list and whose
/// name contains the term, ignoring case.
pub open spec fn first_catalog_pick(
    term: Seq<char>,
    d: SavedDefinesView,
    names: Seq<Seq<char>>,
    j: int,
) -> bool {
    &&& 0 <= j < names.len()
    &&& zone_listed(d, names[j])
    &&& contains_ci(names[j], term)
    &&& forall|k: int|
        0 <= k < j ==> !(zone_listed(d, #[trigger] names[k]) && contains_ci(names[k], term))
}

/// Two first nickname matches are the same position.
proof fn lemma_first_nick_match_unique(q: Seq<char>, d: SavedDefinesView, i1: int, i2: int)
    requires
        first_nick_match(q, d, i1),
        first_nick_match(q, d, i2),
    ensures
        i1 == i2,
{
    if i1 < i2 {
        assert(match d.timezones[i1].nickname {
            Some(n) => !contains_ci(n, q),
            None => true,
        });
    }
    if i2 < i1 {
        assert(match d.timezones[i2].nickname {
            Some(n) => !contains_ci(n, q),
            None => true,
        });
    }
}

/// The effective search term of a query is unique.
proof fn lemma_effective_term_unique(q: Seq<char>, d: SavedDefinesView, t1: Seq<char>, t2: Seq<
    char,
>)
    requires
        effective_term_is(q, d, t1),
        effective_term_is(q, d, t2),
    ensures
        t1 == t2,
{
    if exists|i: int| #[trigger] first_nick_match(q, d, i) && t1 == d.timezones[i].timezone_name {
        let i1 = choose|i: int|
            #[trigger] first_nick_match(q, d, i) && t1 == d.timezones[i].timezone_name;
        if exists|i: int| #[trigger] first_nick_match(q, d, i) && t2
            == d.timezones[i].timezone_name {
            let i2 = choose|i: int|
                #[trigger] first_nick_match(q, d, i) && t2 == d.timezones[i].timezone_name;
            lemma_first_nick_match_unique(q, d, i1, i2);
        } else {
            assert(match d.timezones[i1].nickname {
                Some(n) => !contains_ci(n, q),
                None => true,
            });
        }
    } else {
        if exists|i: int| #[trigger] first_nick_match(q, d, i) && t2
            == d.timezones[i].timezone_name {
            let i2 = choose|i: int|
                #[trigger] first_nick_match(q, d, i) && t2 == d.timezones[i].timezone_name;
            assert(match d.timezones[i2].nickname {
                Some(n) => !contains_ci(n, q),
                None => true,
            });
        }
    }
}

/// Two first catalog picks for the same term are the same position.
proof fn lemma_first_catalog_pick_unique(
    term: Seq<char>,
    d: SavedDefinesView,
    names: Seq<Seq<char>>,
    j1: int,
    j2: int,
)
    requires
        first_catalog_pick(term, d, names, j1),
        first_catalog_pick(term, d, names, j2),
    ensures
        j1 == j2,
{
    if j1 < j2 {
        assert(!(zone_listed(d, names[j1]) && contains_ci(names[j1], term)));
    }
    if j2 < j1 {
        assert(!(zone_listed(d, names[j2]) && contains_ci(names[j2], term)));
    }
}

/// What the lookup of a zone query yields: the name of the first saved
/// catalog zone matching the effective term, or nothing when no saved zone
/// matches it.
pub open spec fn lookup_outcome(
    q: Seq<char>,
    d: SavedDefinesView,
    catalog: Seq<String>,
    r: Option<Seq<char>>,
) -> bool {
    match r {
        Some(name) => exists|term: Seq<char>, j: int|
            {
                &&& #[trigger] effective_term_is(q, d, term)
                &&& #[trigger] first_catalog_pick(term, d, names_view(catalog), j)
                &&& name == names_view(catalog)[j]
            },
        None => exists|term: Seq<char>|
            {
                &&& #[trigger] effective_term_is(q, d, term)
                &&& forall|k: int|
                    0 <= k < catalog.len() ==> !(zone_listed(d, #[trigger] catalog[k]@)
                        && contains_ci(catalog[k]@, term))
            },
    }
}

/// Law: the lookup outcome is a function of the query, the list and the
/// catalog — any two outcomes for the same inputs are equal.
pub proof fn lemma_lookup_outcome_unique(
    q: Seq<char>,
    d: SavedDefinesView,
    catalog: Seq<String>,
    r1: Option<Seq<char>>,
    r2: Option<Seq<char>>,
)
    requires
        lookup_outcome(q, d, catalog, r1),
        lookup_outcome(q, d, catalog, r2),
    ensures
        r1 == r2,
{
    let names = names_view(catalog);
    assert forall|k: int| 0 <= k < catalog.len() implies names[k] == #[trigger] catalog[k]@ by {}
    match (r1, r2) {
        (Some(n1), Some(n2)) => {
            let (term1, j1) = choose|term: Seq<char>, j: int|
                {
                    &&& #[trigger] effective_term_is(q, d, term)
                    &&& #[trigger] first_catalog_pick(term, d, names, j)
                    &&& n1 == names[j]
                };
            let (term2, j2) = choose|term: Seq<char>, j: int|
                {
                    &&& #[trigger] effective_term_is(q, d, term)
                    &&& #[trigger] first_catalog_pick(term, d, names, j)
                    &&& n2 == names[j]
                };
            lemma_effective_term_unique(q, d, term1, term2);
            lemma_first_catalog_pick_unique(term1, d, names, j1, j2);
        },
        (Some(n1), None) => {
            let (term1, j1) = choose|term: Seq<char>, j: int|
                {
                    &&& #[trigger] effective_term_is(q, d, term)
                    &&& #[trigger] first_catalog_pick(term, d, names, j)
                    &&& n1 == names[j]
                };
            let term2 = choose|term: Seq<char>|
                {
                    &&& #[trigger] effective_term_is(q, d, term)
                    &&& forall|k: int|
                        0 <= k < catalog.len() ==> !(zone_listed(d, #[trigger] catalog[k]@)
                            && contains_ci(catalog[k]@, term))
                };
            lemma_effective_term_unique(q, d, term1, term2);
            assert(!(zone_listed(d, catalog[j1]@) && contains_ci(catalog[j1]@, term2)));
        },
        (None, Some(n2)) => {
            let (term2, j2) = choose|term: Seq<char>, j: int|
                {
                    &&& #[trigger] effective_term_is(q, d, term)
                    &&& #[trigger] first_catalog_pick(term, d, names, j)
                    &&& n2 == names[j]
                };
            let term1 = choose|term: Seq<char>|
                {
                    &&& #[trigger] effective_term_is(q, d, term)
                    &&& forall|k: int|
                        0 <= k < catalog.len() ==> !(zone_listed(d, #[trigger] catalog[k]@)
                            && contains_ci(catalog[k]@, term))
                };
            lemma_effective_term_unique(q, d, term1, term2);
            assert(!(zone_listed(d, catalog[j2]@) && contains_ci(catalog[j2]@, term1)));
        },
        (None, None) => {},
    }
}

/// Resolves a zone query to the canonical name of a saved catalog zone, or
/// to nothing when no saved zone matches.
pub fn lookup_zone(query: &String, defines: &SavedDefines, catalog: &Vec<String>) -> (r: Option<
    String,
>)
    ensures
        lookup_outcome(query@, defines@, catalog@, crate::model::opt_text(r)),
{
    let mut term: &String = query;
    let n = defines.timezones.len();
    let mut i: usize = 0;
    let mut nick_hit = false;
    while i < n && !nick_hit
        invariant
            n == defines.timezones@.len(),
            i <= n,
            !nick_hit ==> {
                &&& term == query
                &&& forall|k: int|
                    0 <= k < i ==> match #[trigger] defines@.timezones[k].nickname {
                        Some(nm) => !contains_ci(nm, query@),
                        None => true,
                    }
            },
            nick_hit ==> exists|t: int|
                #[trigger] first_nick_match(query@, defines@, t) && term@
                    == defines@.timezones[t].timezone_name,
        decreases n - i,
    {
        proof {
            assert(defines@.timezones[i as int] == defines.timezones@[i as int]@);
        }
        match &defines.timezones[i].nickname {
            Some(nick) => {
                if str_contains_ci(nick.as_str(), query.as_str()) {
                    proof {
                        assert(first_nick_match(query@, defines@, i as int));
                    }
                    term = &defines.timezones[i].timezone_name;
                    nick_hit = true;
                }
            },
            None => {},
        }
        i += 1;
    }
    proof {
        assert(effective_term_is(query@, defines@, term@));
    }
    let m = catalog.len();
    let mut j: usize = 0;
    while j < m
        invariant
            m == catalog@.len(),
            effective_term_is(query@, defines@, term@),
            j <= m,
            forall|k: int|
                0 <= k < j ==> !(zone_listed(defines@, #[trigger] catalog@[k]@) && contains_ci(
                    catalog@[k]@,
                    term@,
                )),
        decreases m - j,
    {
        if find_timezone_index(defines, &catalog[j]).is_some() {
            if str_contains_ci(catalog[j].as_str(), term.as_str()) {
                proof {
                    assert forall|k: int| 0 <= k < catalog@.len() implies names_view(catalog@)[k]
                        == catalog@[k]@ by {}
                    assert(first_catalog_pick(term@, defines@, names_view(catalog@), j as int));
                }
                return Some(catalog[j].clone());
            }
        }
        j += 1;
    }
    None
}

} // verus!
