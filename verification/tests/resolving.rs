use chrono::Datelike;
use chrono::TimeZone;
use chrono::Timelike;
use tc::CurTimeKind;
use tc::LocalNow;
use tc::TimeParseError;
use tc::get_comparison_date_time;
use tc::get_unix_timestamp;
use tc::tz_offset_from_local_time;

fn fixed_now() -> LocalNow {
    LocalNow::new(2024, 6, 15, 10, 20, 30).unwrap()
}

#[test]
fn explicit_time_keeps_parsed_fields() {
    let now = fixed_now();
    let ct = get_comparison_date_time(Some("10:30:45".to_string()), None, &now).unwrap();
    assert_eq!((ct.hour, ct.minute, ct.second), (10, 30, 45));
    assert_eq!((ct.year, ct.month, ct.day), (2024, 6, 15));
    assert!(ct.kind == CurTimeKind::Local);
    assert_eq!(ct.zone_name, None);
}

#[test]
fn single_field_means_whole_hour() {
    let now = fixed_now();
    let ct = get_comparison_date_time(Some("7".to_string()), None, &now).unwrap();
    assert_eq!((ct.hour, ct.minute, ct.second), (7, 0, 0));
    let ct = get_comparison_date_time(Some("07:05".to_string()), None, &now).unwrap();
    assert_eq!((ct.hour, ct.minute, ct.second), (7, 5, 0));
}

#[test]
fn missing_and_empty_text_fall_back_to_now() {
    let now = fixed_now();
    let ct = get_comparison_date_time(None, None, &now).unwrap();
    assert_eq!((ct.hour, ct.minute, ct.second), (10, 20, 30));
    let ct = get_comparison_date_time(Some("".to_string()), None, &now).unwrap();
    assert_eq!((ct.hour, ct.minute, ct.second), (10, 20, 30));
}

#[test]
fn invalid_two_field_text_fails() {
    let now = fixed_now();
    let r = get_comparison_date_time(Some("25:99".to_string()), None, &now);
    assert_eq!(r.map(|_| ()), Err(TimeParseError));
}

#[test]
fn many_fields_fall_back_to_now() {
    let now = fixed_now();
    let ct = get_comparison_date_time(Some("1:2:3:4".to_string()), None, &now).unwrap();
    assert_eq!((ct.hour, ct.minute, ct.second), (10, 20, 30));
}

#[test]
fn zone_anchor_is_recorded() {
    let now = fixed_now();
    let ct =
        get_comparison_date_time(Some("12:00".to_string()), Some("UTC".to_string()), &now).unwrap();
    assert!(ct.kind == CurTimeKind::Tz);
    assert_eq!(ct.zone_name, Some("UTC".to_string()));
    // the instant carries the parsed figures in the anchor zone
    let expected =
        chrono::Utc.with_ymd_and_hms(2024, 6, 15, 12, 0, 0).unwrap().timestamp();
    assert_eq!(ct.epoch_seconds, expected);
}

#[test]
fn tokyo_anchor_matches_zone_database() {
    let now = fixed_now();
    let ct = get_comparison_date_time(
        Some("09:30:00".to_string()),
        Some("Asia/Tokyo".to_string()),
        &now,
    )
    .unwrap();
    let expected = chrono_tz::Tz::Asia__Tokyo
        .with_ymd_and_hms(2024, 6, 15, 9, 30, 0)
        .unwrap()
        .timestamp();
    assert_eq!(ct.epoch_seconds, expected);
}

#[test]
fn fallback_with_anchor_reads_zone_wall_clock() {
    let now = fixed_now();
    let ct =
        get_comparison_date_time(None, Some("Asia/Tokyo".to_string()), &now).unwrap();
    let local = chrono::Local.with_ymd_and_hms(2024, 6, 15, 10, 20, 30).earliest().unwrap();
    let there = local.with_timezone(&chrono_tz::Tz::Asia__Tokyo);
    assert_eq!(
        (ct.hour, ct.minute, ct.second),
        (there.hour() as u8, there.minute() as u8, there.second() as u8)
    );
}

#[test]
fn unknown_anchor_zone_fails() {
    let now = fixed_now();
    let r = get_comparison_date_time(
        Some("12:00".to_string()),
        Some("Mars/Olympus".to_string()),
        &now,
    );
    assert!(r.is_err());
}

#[test]
fn unix_timestamp_matches_local_zone() {
    let now = fixed_now();
    let t = get_unix_timestamp(Some("10:00".to_string()), &now).unwrap();
    let expected = chrono::Local
        .with_ymd_and_hms(2024, 6, 15, 10, 0, 0)
        .earliest()
        .unwrap()
        .timestamp();
    assert_eq!(t, expected);
}

#[test]
fn unix_timestamp_rejects_bad_text() {
    let now = fixed_now();
    assert!(get_unix_timestamp(Some("99:99".to_string()), &now).is_err());
}

#[test]
fn local_figures_unchanged_without_zone() {
    let now = fixed_now();
    let r = tz_offset_from_local_time(10, 20, 30, &now, None);
    assert_eq!(r, Some((10, 20, 30)));
}

#[test]
fn local_figures_shift_into_zone() {
    let now = fixed_now();
    let zone = "Asia/Tokyo".to_string();
    let r = tz_offset_from_local_time(10, 20, 30, &now, Some(&zone)).unwrap();
    let local = chrono::Local.with_ymd_and_hms(2024, 6, 15, 10, 20, 30).earliest().unwrap();
    let there = local.with_timezone(&chrono_tz::Tz::Asia__Tokyo);
    assert_eq!(r, (there.hour() as u8, there.minute() as u8, there.second() as u8));
}

#[test]
fn now_snapshot_rejects_bad_fields() {
    assert!(LocalNow::new(2024, 13, 1, 0, 0, 0).is_none());
    assert!(LocalNow::new(2024, 0, 1, 0, 0, 0).is_none());
    assert!(LocalNow::new(2024, 6, 15, 24, 0, 0).is_none());
    assert!(LocalNow::new(2024, 6, 15, 23, 59, 59).is_some());
}

#[test]
fn resolver_accepts_the_machine_clock() {
    let now = chrono::Local::now();
    let snapshot = LocalNow::new(
        now.year(),
        now.month() as u8,
        now.day() as u8,
        now.hour() as u8,
        now.minute() as u8,
        now.second() as u8,
    )
    .unwrap();
    let ct = get_comparison_date_time(None, None, &snapshot).unwrap();
    assert_eq!(ct.year, now.year());
}
