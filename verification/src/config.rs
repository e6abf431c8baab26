//! Operations on the saved-zone list: membership, add, nickname, separator
//! toggle, removal, schema upgrades and the plain-text listing.

use vstd::prelude::*;
use crate::chars::contains_ci;
use crate::chars::contains_seq;
use crate::chars::str_contains;
use crate::chars::str_contains_ci;
use crate::model::CURRENT_DEFINES_VERSION;
use crate::model::SavedDefines;
use crate::model::SavedDefinesView;
use crate::model::SavedTimezoneView;
use crate::model::SavedTimezones;
use crate::model::ZoneError;

verus! {

/// Whether some entry of the list carries exactly this zone name.
pub open spec fn zone_listed(d: SavedDefinesView, name: Seq<char>) -> bool {
    exists|i: int|
        0 <= i < d.timezones.len() && #[trigger] d.timezones[i].timezone_name == name
}

/// Finds the first entry carrying exactly this zone name.
pub fn find_timezone_index(defines: &SavedDefines, tz_name: &String) -> (r: Option<usize>)
    ensures
        match r {
            Some(i) => {
                &&& i < defines@.timezones.len()
                &&& defines@.timezones[i as int].timezone_name == tz_name@
                &&& forall|j: int|
                    0 <= j < i ==> #[trigger] defines@.timezones[j].timezone_name != tz_name@
            },
            None => !zone_listed(defines@, tz_name@),
        },
{
    let n = defines.timezones.len();
    let mut i: usize = 0;
    while i < n
        invariant
            n == defines.timezones@.len(),
            i <= n,
            forall|j: int|
                0 <= j < i ==> #[trigger] defines@.timezones[j].timezone_name != tz_name@,
        decreases n - i,
    {
        proof {
            assert(defines@.timezones[i as int] == defines.timezones@[i as int]@);
        }
        if defines.timezones[i].timezone_name.eq(tz_name) {
            return Some(i);
        }
        i += 1;
    }
    None
}

/// Membership test with a signed index: the position of the first entry
/// carrying the name and `true`, or `-1` and `false`.
pub fn saved_list_contains_timezone(defines: &SavedDefines, tz_name: &String) -> (r: (i32, bool))
    requires
        defines.timezones@.len() <= i32::MAX,
    ensures
        r.1 == zone_listed(defines@, tz_name@),
        r.1 ==> {
            &&& 0 <= r.0 < defines@.timezones.len()
            &&& defines@.timezones[r.0 as int].timezone_name == tz_name@
            &&& forall|j: int|
                0 <= j < r.0 ==> #[trigger] defines@.timezones[j].timezone_name != tz_name@
        },
        !r.1 ==> r.0 == -1,
{
    match find_timezone_index(defines, tz_name) {
        Some(i) => (i as i32, true),
        None => (-1, false),
    }
}

/// The zone-name sequences of a vector of names.
pub open spec fn names_view(c: Seq<String>) -> Seq<Seq<char>> {
    c.map_values(|s: String| s@)
}

/// `j` is the first catalog position whose name the folded input contains.
pub open spec fn first_add_match(input: Seq<char>, names: Seq<Seq<char>>, j: int) -> bool {
    &&& 0 <= j < names.len()
    &&& contains_ci(input, names[j])
    &&& forall|k: int| 0 <= k < j ==> !contains_ci(input, #[trigger] names[k])
}

/// Adds a zone to the list.
///
/// The catalog is scanned in order for the first zone whose canonical name
/// the input contains, ignoring case; that zone is appended with no
/// nickname and no separator.  An input matching nothing is rejected with
/// `ZoneNotFound`; a zone already on the list is rejected with
/// `ZoneAlreadyListed`.  On every failure the list is left unchanged.
pub fn add_timezone(tz_input: String, defines: &mut SavedDefines, catalog: &Vec<String>) -> (r:
    Result<String, ZoneError>)
    ensures
        final(defines).version == old(defines).version,
        match r {
            Ok(name) => exists|j: int|
                {
                    &&& #[trigger] first_add_match(tz_input@, names_view(catalog@), j)
                    &&& name@ == catalog@[j]@
                    &&& !zone_listed(old(defines)@, catalog@[j]@)
                    &&& final(defines)@.timezones == old(defines)@.timezones.push(
                        SavedTimezoneView {
                            timezone_name: catalog@[j]@,
                            nickname: None,
                            separator: false,
                        },
                    )
                },
            Err(ZoneError::ZoneAlreadyListed) => {
                &&& exists|j: int|
                    #[trigger] first_add_match(tz_input@, names_view(catalog@), j)
                        && zone_listed(old(defines)@, catalog@[j]@)
                &&& *final(defines) == *old(defines)
            },
            Err(ZoneError::ZoneNotFound) => {
                &&& forall|k: int|
                    0 <= k < catalog@.len() ==> !contains_ci(tz_input@, #[trigger] catalog@[k]@)
                &&& *final(defines) == *old(defines)
            },
            Err(ZoneError::ZoneNotInList) => false,
        },
{
    let n = catalog.len();
    let mut j: usize = 0;
    while j < n
        invariant
            n == catalog@.len(),
            j <= n,
            *defines == *old(defines),
            forall|k: int| 0 <= k < j ==> !contains_ci(tz_input@, #[trigger] catalog@[k]@),
        decreases n - j,
    {
        proof {
            assert(names_view(catalog@)[j as int] == catalog@[j as int]@);
        }
        if str_contains_ci(tz_input.as_str(), catalog[j].as_str()) {
            proof {
                assert forall|k: int| 0 <= k < catalog@.len() implies names_view(catalog@)[k]
                    == catalog@[k]@ by {}
                assert(first_add_match(tz_input@, names_view(catalog@), j as int));
            }
            let name = &catalog[j];
            if find_timezone_index(defines, name).is_some() {
                return Err(ZoneError::ZoneAlreadyListed);
            }
            let entry = SavedTimezones {
                timezone_name: name.clone(),
                nickname: None,
                separator: false,
            };
            defines.timezones.push(entry);
            proof {
                assert(final(defines)@.timezones =~= old(defines)@.timezones.push(
                    SavedTimezoneView {
                        timezone_name: catalog@[j as int]@,
                        nickname: None,
                        separator: false,
                    },
                ));
            }
            return Ok(name.clone());
        }
        j += 1;
    }
    Err(ZoneError::ZoneNotFound)
}

/// `i` is the first list position whose zone name the input contains.
pub open spec fn first_entry_match(input: Seq<char>, d: SavedDefinesView, i: int) -> bool {
    &&& 0 <= i < d.timezones.len()
    &&& contains_seq(input, d.timezones[i].timezone_name)
    &&& forall|k: int| 0 <= k < i ==> !contains_seq(input, #[trigger] d.timezones[k].timezone_name)
}

/// Finds the first entry whose zone name the input contains, case
/// sensitively, the match rule of the nickname, separator and removal
/// operations.
fn find_entry_match(tz_input: &String, defines: &SavedDefines) -> (r: Option<usize>)
    ensures
        match r {
            Some(i) => first_entry_match(tz_input@, defines@, i as int),
            None => forall|k: int|
                0 <= k < defines@.timezones.len() ==> !contains_seq(
                    tz_input@,
                    #[trigger] defines@.timezones[k].timezone_name,
                ),
        },
{
    let n = defines.timezones.len();
    let mut i: usize = 0;
    while i < n
        invariant
            n == defines.timezones@.len(),
            i <= n,
            forall|k: int|
                0 <= k < i ==> !contains_seq(
                    tz_input@,
                    #[trigger] defines@.timezones[k].timezone_name,
                ),
        decreases n - i,
    {
        proof {
            assert(defines@.timezones[i as int] == defines.timezones@[i as int]@);
        }
        if str_contains(tz_input.as_str(), defines.timezones[i].timezone_name.as_str()) {
            return Some(i);
        }
        i += 1;
    }
    None
}

/// Sets or clears the nickname of the first entry whose zone name the
/// input contains; `ZoneNotInList` and an unchanged list when none does.
pub fn add_nick_to_timezone(
    tz_input: String,
    nickname: Option<String>,
    defines: &mut SavedDefines,
) -> (r: Result<String, ZoneError>)
    ensures
        final(defines).version == old(defines).version,
        match r {
            Ok(name) => {
                &&& name@ == tz_input@
                &&& exists|i: int|
                    {
                        &&& #[trigger] first_entry_match(tz_input@, old(defines)@, i)
                        &&& final(defines)@.timezones == old(defines)@.timezones.update(
                            i,
                            SavedTimezoneView {
                                nickname: match nickname {
                                    Some(n) => Some(n@),
                                    None => None,
                                },
                                ..old(defines)@.timezones[i]
                            },
                        )
                    }
            },
            Err(ZoneError::ZoneNotInList) => {
                &&& forall|k: int|
                    0 <= k < old(defines)@.timezones.len() ==> !contains_seq(
                        tz_input@,
                        #[trigger] old(defines)@.timezones[k].timezone_name,
                    )
                &&& *final(defines) == *old(defines)
            },
            Err(_) => false,
        },
{
    match find_entry_match(&tz_input, defines) {
        Some(i) => {
            let ghost old_list = defines@.timezones;
            defines.timezones[i].nickname = nickname;
            proof {
                assert(final(defines)@.timezones =~= old_list.update(
                    i as int,
                    SavedTimezoneView {
                        nickname: final(defines)@.timezones[i as int].nickname,
                        ..old_list[i as int]
                    },
                ));
            }
            Ok(tz_input)
        },
        None => Err(ZoneError::ZoneNotInList),
    }
}

/// Toggles the separator flag of the first entry whose zone name the input
/// contains; `ZoneNotInList` and an unchanged list when none does.
pub fn add_sep_to_timezone(tz_input: String, defines: &mut SavedDefines) -> (r: Result<
    String,
    ZoneError,
>)
    ensures
        final(defines).version == old(defines).version,
        match r {
            Ok(name) => {
                &&& name@ == tz_input@
                &&& exists|i: int|
                    {
                        &&& #[trigger] first_entry_match(tz_input@, old(defines)@, i)
                        &&& final(defines)@.timezones == old(defines)@.timezones.update(
                            i,
                            SavedTimezoneView {
                                separator: !old(defines)@.timezones[i].separator,
                                ..old(defines)@.timezones[i]
                            },
                        )
                    }
            },
            Err(ZoneError::ZoneNotInList) => {
                &&& forall|k: int|
                    0 <= k < old(defines)@.timezones.len() ==> !contains_seq(
                        tz_input@,
                        #[trigger] old(defines)@.timezones[k].timezone_name,
                    )
                &&& *final(defines) == *old(defines)
            },
            Err(_) => false,
        },
{
    match find_entry_match(&tz_input, defines) {
        Some(i) => {
            let ghost old_list = defines@.timezones;
            let cur = defines.timezones[i].separator;
            defines.timezones[i].separator = !cur;
            proof {
                assert(final(defines)@.timezones =~= old_list.update(
                    i as int,
                    SavedTimezoneView { separator: !old_list[i as int].separator, ..old_list[i as int] },
                ));
            }
            Ok(tz_input)
        },
        None => Err(ZoneError::ZoneNotInList),
    }
}

/// Removes the first entry whose zone name the input contains;
/// `ZoneNotInList` and an unchanged list when none does.
pub fn remove_timezone(tz_input: String, defines: &mut SavedDefines) -> (r: Result<
    String,
    ZoneError,
>)
    ensures
        final(defines).version == old(defines).version,
        match r {
            Ok(name) => {
                &&& name@ == tz_input@
                &&& exists|i: int|
                    {
                        &&& #[trigger] first_entry_match(tz_input@, old(defines)@, i)
                        &&& final(defines)@.timezones == old(defines)@.timezones.remove(i)
                    }
            },
            Err(ZoneError::ZoneNotInList) => {
                &&& forall|k: int|
                    0 <= k < old(defines)@.timezones.len() ==> !contains_seq(
                        tz_input@,
                        #[trigger] old(defines)@.timezones[k].timezone_name,
                    )
                &&& *final(defines) == *old(defines)
            },
            Err(_) => false,
        },
{
    match find_entry_match(&tz_input, defines) {
        Some(i) => {
            let ghost old_list = defines@.timezones;
            defines.timezones.remove(i);
            proof {
                assert(final(defines)@.timezones =~= old_list.remove(i as int));
            }
            Ok(tz_input)
        },
        None => Err(ZoneError::ZoneNotInList),
    }
}

/// The nickname as display text: the nickname itself, or empty when there
/// is none.
pub fn get_nick_string(nick: Option<String>) -> (r: String)
    ensures
        r@ == match nick {
            Some(n) => n@,
            None => Seq::<char>::empty(),
        },
{
    match nick {
        Some(t) => t,
        None => String::new(),
    }
}

/// Upgrades the oldest persisted shape, a bare list of zone names, to the
/// current one: no nicknames, no separators.
pub fn defines_from_v0(names: &Vec<String>) -> (r: SavedDefines)
    ensures
        r.version == CURRENT_DEFINES_VERSION,
        r@.timezones.len() == names@.len(),
        forall|k: int|
            0 <= k < names@.len() ==> #[trigger] r@.timezones[k] == (SavedTimezoneView {
                timezone_name: names@[k]@,
                nickname: None,
                separator: false,
            }),
{
    let mut timezones: Vec<SavedTimezones> = Vec::new();
    let n = names.len();
    let mut i: usize = 0;
    while i < n
        invariant
            n == names@.len(),
            i <= n,
            timezones@.len() == i,
            forall|k: int|
                0 <= k < i ==> #[trigger] timezones@[k]@ == (SavedTimezoneView {
                    timezone_name: names@[k]@,
                    nickname: None,
                    separator: false,
                }),
        decreases n - i,
    {
        timezones.push(
            SavedTimezones { timezone_name: names[i].clone(), nickname: None, separator: false },
        );
        i += 1;
    }
    SavedDefines { version: CURRENT_DEFINES_VERSION, timezones }
}

/// Upgrades the middle persisted shape, zone names with nicknames, to the
/// current one: no separators.
pub fn defines_from_v1(entries: &Vec<(String, Option<String>)>) -> (r: SavedDefines)
    ensures
        r.version == CURRENT_DEFINES_VERSION,
        r@.timezones.len() == entries@.len(),
        forall|k: int|
            0 <= k < entries@.len() ==> #[trigger] r@.timezones[k] == (SavedTimezoneView {
                timezone_name: entries@[k].0@,
                nickname: match entries@[k].1 {
                    Some(nm) => Some(nm@),
                    None => None,
                },
                separator: false,
            }),
{
    let mut timezones: Vec<SavedTimezones> = Vec::new();
    let n = entries.len();
    let mut i: usize = 0;
    while i < n
        invariant
            n == entries@.len(),
            i <= n,
            timezones@.len() == i,
            forall|k: int|
                0 <= k < i ==> #[trigger] timezones@[k]@ == (SavedTimezoneView {
                    timezone_name: entries@[k].0@,
                    nickname: match entries@[k].1 {
                        Some(nm) => Some(nm@),
                        None => None,
                    },
                    separator: false,
                }),
        decreases n - i,
    {
        let nickname = match &entries[i].1 {
            Some(nm) => Some(nm.clone()),
            None => None,
        };
        timezones.push(
            SavedTimezones { timezone_name: entries[i].0.clone(), nickname, separator: false },
        );
        i += 1;
    }
    SavedDefines { version: CURRENT_DEFINES_VERSION, timezones }
}

} // verus!
