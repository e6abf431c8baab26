use tc::SavedDefines;
use tc::SavedTimezones;
use tc::ZoneError;
use tc::add_nick_to_timezone;
use tc::add_sep_to_timezone;
use tc::add_timezone;
use tc::catalog_names;
use tc::defines_from_v0;
use tc::defines_from_v1;
use tc::format_defines_list;
use tc::get_nick_string;
use tc::lookup_zone;
use tc::remove_timezone;
use tc::saved_list_contains_timezone;

fn small_catalog() -> Vec<String> {
    vec!["UTC".to_string(), "Asia/Tokyo".to_string(), "Europe/Berlin".to_string()]
}

fn sample_defines() -> SavedDefines {
    SavedDefines {
        version: 2,
        timezones: vec![
            SavedTimezones { timezone_name: "UTC".to_string(), nickname: None, separator: false },
            SavedTimezones {
                timezone_name: "Asia/Tokyo".to_string(),
                nickname: Some("tok".to_string()),
                separator: true,
            },
        ],
    }
}

#[test]
fn default_defines_is_empty_current_version() {
    let d = SavedDefines::default();
    assert_eq!(d.version, 2);
    assert!(d.timezones.is_empty());
}

#[test]
fn membership_reports_first_index() {
    let d = sample_defines();
    assert_eq!(saved_list_contains_timezone(&d, &"UTC".to_string()), (0, true));
    assert_eq!(saved_list_contains_timezone(&d, &"Asia/Tokyo".to_string()), (1, true));
    assert_eq!(saved_list_contains_timezone(&d, &"Europe/Berlin".to_string()), (-1, false));
}

#[test]
fn add_zone_appends_entry() {
    let mut d = SavedDefines::default();
    let catalog = small_catalog();
    let r = add_timezone("utc".to_string(), &mut d, &catalog);
    assert_eq!(r, Ok("UTC".to_string()));
    assert_eq!(d.timezones.len(), 1);
    assert_eq!(d.timezones[0].timezone_name, "UTC");
    assert_eq!(d.timezones[0].nickname, None);
    assert!(!d.timezones[0].separator);
}

#[test]
fn add_duplicate_zone_is_rejected_and_list_unchanged() {
    let mut d = SavedDefines::default();
    let catalog = small_catalog();
    assert_eq!(add_timezone("UTC".to_string(), &mut d, &catalog), Ok("UTC".to_string()));
    let r = add_timezone("UTC".to_string(), &mut d, &catalog);
    assert_eq!(r, Err(ZoneError::ZoneAlreadyListed));
    assert_eq!(d.timezones.len(), 1);
    assert_eq!(d.timezones[0].timezone_name, "UTC");
}

#[test]
fn add_unknown_zone_is_not_found() {
    let mut d = SavedDefines::default();
    let catalog = small_catalog();
    assert_eq!(add_timezone("mars".to_string(), &mut d, &catalog), Err(ZoneError::ZoneNotFound));
    assert!(d.timezones.is_empty());
}

#[test]
fn nickname_set_and_clear() {
    let mut d = sample_defines();
    let r = add_nick_to_timezone("UTC".to_string(), Some("world".to_string()), &mut d);
    assert_eq!(r, Ok("UTC".to_string()));
    assert_eq!(d.timezones[0].nickname, Some("world".to_string()));
    let r = add_nick_to_timezone("UTC".to_string(), None, &mut d);
    assert_eq!(r, Ok("UTC".to_string()));
    assert_eq!(d.timezones[0].nickname, None);
    let r = add_nick_to_timezone("Mars/Olympus".to_string(), Some("x".to_string()), &mut d);
    assert_eq!(r, Err(ZoneError::ZoneNotInList));
}

#[test]
fn separator_toggles() {
    let mut d = sample_defines();
    assert_eq!(add_sep_to_timezone("UTC".to_string(), &mut d), Ok("UTC".to_string()));
    assert!(d.timezones[0].separator);
    assert_eq!(add_sep_to_timezone("UTC".to_string(), &mut d), Ok("UTC".to_string()));
    assert!(!d.timezones[0].separator);
    assert_eq!(
        add_sep_to_timezone("Mars/Olympus".to_string(), &mut d),
        Err(ZoneError::ZoneNotInList)
    );
}

#[test]
fn remove_drops_first_match() {
    let mut d = sample_defines();
    assert_eq!(remove_timezone("UTC".to_string(), &mut d), Ok("UTC".to_string()));
    assert_eq!(d.timezones.len(), 1);
    assert_eq!(d.timezones[0].timezone_name, "Asia/Tokyo");
    assert_eq!(remove_timezone("UTC".to_string(), &mut d), Err(ZoneError::ZoneNotInList));
}

#[test]
fn nick_string_of_absent_is_empty() {
    assert_eq!(get_nick_string(None), "");
    assert_eq!(get_nick_string(Some("tok".to_string())), "tok");
}

#[test]
fn lookup_by_nickname_substitutes_zone() {
    let d = sample_defines();
    let catalog = catalog_names();
    assert_eq!(lookup_zone(&"tok".to_string(), &d, &catalog), Some("Asia/Tokyo".to_string()));
}

#[test]
fn lookup_unknown_query_is_unanchored() {
    let d = sample_defines();
    let catalog = catalog_names();
    assert_eq!(lookup_zone(&"mars".to_string(), &d, &catalog), None);
}

#[test]
fn lookup_prefers_saved_zones_case_insensitively() {
    let d = sample_defines();
    let catalog = catalog_names();
    assert_eq!(lookup_zone(&"tokyo".to_string(), &d, &catalog), Some("Asia/Tokyo".to_string()));
    // Berlin is a catalog zone but not saved, so it does not anchor
    assert_eq!(lookup_zone(&"berlin".to_string(), &d, &catalog), None);
}

#[test]
fn catalog_contains_known_zones() {
    let catalog = catalog_names();
    assert!(!catalog.is_empty());
    assert!(catalog.iter().any(|n| n == "UTC"));
    assert!(catalog.iter().any(|n| n == "Asia/Tokyo"));
}

#[test]
fn upgrade_from_bare_names() {
    let d = defines_from_v0(&vec!["UTC".to_string(), "Asia/Tokyo".to_string()]);
    assert_eq!(d.version, 2);
    assert_eq!(d.timezones.len(), 2);
    assert_eq!(d.timezones[1].timezone_name, "Asia/Tokyo");
    assert_eq!(d.timezones[1].nickname, None);
    assert!(!d.timezones[1].separator);
}

#[test]
fn upgrade_from_nicknamed_names() {
    let d = defines_from_v1(&vec![
        ("UTC".to_string(), None),
        ("Asia/Tokyo".to_string(), Some("tok".to_string())),
    ]);
    assert_eq!(d.version, 2);
    assert_eq!(d.timezones[1].nickname, Some("tok".to_string()));
    assert!(!d.timezones[0].separator);
}

#[test]
fn defines_listing_is_aligned() {
    let d = sample_defines();
    let s = format_defines_list(&d);
    assert_eq!(s, "UTC                       \nAsia/Tokyo                tok\n");
}
