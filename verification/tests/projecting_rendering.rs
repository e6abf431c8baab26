use chrono::TimeZone;
use tc::CurTime;
use tc::CurTimeKind;
use tc::LocalNow;
use tc::OutputFormat;
use tc::OutputTime;
use tc::SavedDefines;
use tc::SavedTimezones;
use tc::get_comparison_date_time;
use tc::project;
use tc::render;
use tc::render_time;

fn fixed_now() -> LocalNow {
    LocalNow::new(2024, 6, 15, 10, 20, 30).unwrap()
}

fn sample_defines() -> SavedDefines {
    SavedDefines {
        version: 2,
        timezones: vec![
            SavedTimezones { timezone_name: "UTC".to_string(), nickname: None, separator: false },
            SavedTimezones {
                timezone_name: "Asia/Tokyo".to_string(),
                nickname: Some("tok".to_string()),
                separator: true,
            },
        ],
    }
}

fn sample_catalog() -> Vec<String> {
    tc::catalog_names()
}

fn manual_ct() -> CurTime {
    CurTime {
        kind: CurTimeKind::Local,
        zone_name: None,
        year: 2024,
        month: 6,
        day: 15,
        ordinal0: 166,
        hour: 9,
        minute: 5,
        second: 0,
        epoch_seconds: 1718442300,
    }
}

fn rows_equal(a: &OutputTime, b: &OutputTime) -> bool {
    a.timezone_name == b.timezone_name && a.timezone_nickname == b.timezone_nickname
        && a.displayed_name == b.displayed_name && a.day_offset == b.day_offset
        && a.day_offset_str == b.day_offset_str && a.timestamp == b.timestamp
        && a.timestring == b.timestring && a.separator == b.separator
}

#[test]
fn two_saved_zones_give_two_rows() {
    let now = fixed_now();
    let defines = sample_defines();
    let catalog = sample_catalog();
    let ct = get_comparison_date_time(Some("10:00".to_string()), None, &now).unwrap();
    let rows = project(&ct, &defines, &catalog);
    assert_eq!(rows.len(), 2);
    // Tokyo reads nine hours ahead of UTC, so the UTC row sorts first
    assert_eq!(rows[0].timezone_name, "UTC");
    assert_eq!(rows[1].timezone_name, "Asia/Tokyo");
    assert_eq!(rows[1].displayed_name, "[tok] Asia/Tokyo");
    assert_eq!(rows[1].timezone_nickname, Some("tok".to_string()));
    assert!(rows[1].separator);
    let local = chrono::Local.with_ymd_and_hms(2024, 6, 15, 10, 0, 0).earliest().unwrap();
    let in_utc = local.with_timezone(&chrono_tz::Tz::UTC);
    assert_eq!(rows[0].timestring, in_utc.time().to_string());
    let in_tokyo = local.with_timezone(&chrono_tz::Tz::Asia__Tokyo);
    assert_eq!(rows[1].timestring, in_tokyo.time().to_string());
}

#[test]
fn projection_is_deterministic_on_repeat() {
    let now = fixed_now();
    let defines = sample_defines();
    let catalog = sample_catalog();
    let ct = get_comparison_date_time(Some("10:00".to_string()), None, &now).unwrap();
    let rows1 = project(&ct, &defines, &catalog);
    let rows2 = project(&ct, &defines, &catalog);
    assert_eq!(rows1.len(), rows2.len());
    for (a, b) in rows1.iter().zip(rows2.iter()) {
        assert!(rows_equal(a, b));
    }
}

#[test]
fn empty_list_projects_to_no_rows() {
    let now = fixed_now();
    let defines = SavedDefines::default();
    let catalog = sample_catalog();
    let ct = get_comparison_date_time(Some("10:00".to_string()), None, &now).unwrap();
    let rows = project(&ct, &defines, &catalog);
    assert!(rows.is_empty());
}

#[test]
fn day_offset_across_midnight() {
    let now = fixed_now();
    let defines = sample_defines();
    let catalog = sample_catalog();
    let ct =
        get_comparison_date_time(Some("23:30".to_string()), Some("UTC".to_string()), &now).unwrap();
    let rows = project(&ct, &defines, &catalog);
    assert_eq!(rows.len(), 2);
    assert_eq!(rows[0].timezone_name, "UTC");
    assert_eq!(rows[0].timestring, "23:30:00");
    assert_eq!(rows[0].day_offset, 0);
    assert_eq!(rows[0].day_offset_str, "");
    assert_eq!(rows[1].timezone_name, "Asia/Tokyo");
    assert_eq!(rows[1].timestring, "08:30:00");
    assert_eq!(rows[1].day_offset, 1);
    assert_eq!(rows[1].day_offset_str, "(+1 day)");
}

#[test]
fn day_offset_backwards() {
    let now = fixed_now();
    let defines = SavedDefines {
        version: 2,
        timezones: vec![SavedTimezones {
            timezone_name: "UTC".to_string(),
            nickname: None,
            separator: false,
        }],
    };
    let catalog = sample_catalog();
    let ct = get_comparison_date_time(
        Some("00:30".to_string()),
        Some("Asia/Tokyo".to_string()),
        &now,
    )
    .unwrap();
    let rows = project(&ct, &defines, &catalog);
    assert_eq!(rows.len(), 1);
    assert_eq!(rows[0].timestring, "15:30:00");
    assert_eq!(rows[0].day_offset, 1);
    assert_eq!(rows[0].day_offset_str, "(-1 day)");
}

#[test]
fn equal_timestamps_keep_catalog_order() {
    let now = fixed_now();
    // two names of the same zone read identical wall-clock times, so the
    // stable sort keeps their catalog enumeration order
    let defines = SavedDefines {
        version: 2,
        timezones: vec![
            SavedTimezones { timezone_name: "UTC".to_string(), nickname: None, separator: false },
            SavedTimezones {
                timezone_name: "Etc/UTC".to_string(),
                nickname: None,
                separator: false,
            },
        ],
    };
    let catalog = sample_catalog();
    let ct =
        get_comparison_date_time(Some("12:00".to_string()), Some("UTC".to_string()), &now).unwrap();
    let rows = project(&ct, &defines, &catalog);
    assert_eq!(rows.len(), 2);
    assert_eq!(rows[0].timestamp, rows[1].timestamp);
    assert_eq!(rows[0].timezone_name, "Etc/UTC");
    assert_eq!(rows[1].timezone_name, "UTC");
}

#[test]
fn pretty_render_has_header_rows_and_separator() {
    let now = fixed_now();
    let defines = sample_defines();
    let catalog = sample_catalog();
    let ct =
        get_comparison_date_time(Some("23:30".to_string()), Some("UTC".to_string()), &now).unwrap();
    let rows = project(&ct, &defines, &catalog);
    let out = render(&ct, &rows, OutputFormat::Pretty);
    let expected = "Time for UTC              23:30:00\n\n\
         UTC                       23:30:00 \n\
         [tok] Asia/Tokyo          08:30:00 (+1 day)\n\
         ----------------------------------\n";
    assert_eq!(out, expected);
}

#[test]
fn pretty_header_without_anchor_is_local_time() {
    let ct = manual_ct();
    let rows: Vec<OutputTime> = Vec::new();
    let out = render(&ct, &rows, OutputFormat::Pretty);
    assert_eq!(out, "Local Time                09:05:00\n\n");
}

#[test]
fn csv_render_exact() {
    let ct = manual_ct();
    let rows = vec![
        OutputTime {
            timezone_name: "UTC".to_string(),
            timezone_nickname: None,
            displayed_name: "UTC".to_string(),
            day_offset: 0,
            day_offset_str: "".to_string(),
            timestamp: 5,
            timestring: "00:00:05".to_string(),
            separator: false,
        },
        OutputTime {
            timezone_name: "Asia/Tokyo".to_string(),
            timezone_nickname: Some("tok".to_string()),
            displayed_name: "[tok] Asia/Tokyo".to_string(),
            day_offset: 1,
            day_offset_str: "(+1 day)".to_string(),
            timestamp: -3,
            timestring: "09:00:05".to_string(),
            separator: true,
        },
    ];
    let out = render(&ct, &rows, OutputFormat::Csv);
    let expected = "Timezone Name,Timezone Nickname,Day Offset,Timestring,Timestamp\n\
         UTC,null,0,00:00:05,5\n\
         Asia/Tokyo,tok,1,09:00:05,-3\n";
    assert_eq!(out, expected);
}

#[test]
fn json_render_exact() {
    let ct = manual_ct();
    let rows = vec![OutputTime {
        timezone_name: "UTC".to_string(),
        timezone_nickname: None,
        displayed_name: "UTC".to_string(),
        day_offset: 0,
        day_offset_str: "".to_string(),
        timestamp: 5,
        timestring: "00:00:05".to_string(),
        separator: false,
    }];
    let out = render(&ct, &rows, OutputFormat::Json);
    let expected = "[{\"timezone_name\":\"UTC\",\"timezone_nickname\":null,\
         \"displayed_name\":\"UTC\",\"day_offset\":0,\"day_offset_str\":\"\",\
         \"timestamp\":5,\"timestring\":\"00:00:05\",\"separator\":false}]";
    assert_eq!(out, expected);
}

#[test]
fn json_render_empty_list() {
    let ct = manual_ct();
    let rows: Vec<OutputTime> = Vec::new();
    assert_eq!(render(&ct, &rows, OutputFormat::Json), "[]");
    assert_eq!(render(&ct, &rows, OutputFormat::JsonPretty), "[]");
}

#[test]
fn json_pretty_render_exact() {
    let ct = manual_ct();
    let rows = vec![OutputTime {
        timezone_name: "UTC".to_string(),
        timezone_nickname: Some("u".to_string()),
        displayed_name: "[u] UTC".to_string(),
        day_offset: 2,
        day_offset_str: "(+2 days)".to_string(),
        timestamp: -1,
        timestring: "01:02:03".to_string(),
        separator: true,
    }];
    let out = render(&ct, &rows, OutputFormat::JsonPretty);
    let expected = "[\n  {\n    \"timezone_name\": \"UTC\",\n    \"timezone_nickname\": \"u\",\n    \
         \"displayed_name\": \"[u] UTC\",\n    \"day_offset\": 2,\n    \
         \"day_offset_str\": \"(+2 days)\",\n    \"timestamp\": -1,\n    \
         \"timestring\": \"01:02:03\",\n    \"separator\": true\n  }\n]";
    assert_eq!(out, expected);
}

#[test]
fn json_round_trip_reconstructs_rows() {
    let now = fixed_now();
    let defines = sample_defines();
    let catalog = sample_catalog();
    let ct =
        get_comparison_date_time(Some("23:30".to_string()), Some("UTC".to_string()), &now).unwrap();
    let rows = project(&ct, &defines, &catalog);
    let out = render(&ct, &rows, OutputFormat::Json);
    let parsed: serde_json::Value = serde_json::from_str(&out).unwrap();
    let arr = parsed.as_array().unwrap();
    assert_eq!(arr.len(), rows.len());
    for (v, row) in arr.iter().zip(rows.iter()) {
        assert_eq!(v.get("timezone_name").unwrap().as_str().unwrap(), row.timezone_name);
        match &row.timezone_nickname {
            Some(n) => assert_eq!(v.get("timezone_nickname").unwrap().as_str().unwrap(), n),
            None => assert!(v.get("timezone_nickname").unwrap().is_null()),
        }
        assert_eq!(v.get("displayed_name").unwrap().as_str().unwrap(), row.displayed_name);
        assert_eq!(v.get("day_offset").unwrap().as_u64().unwrap(), row.day_offset as u64);
        assert_eq!(v.get("day_offset_str").unwrap().as_str().unwrap(), row.day_offset_str);
        assert_eq!(v.get("timestamp").unwrap().as_i64().unwrap(), row.timestamp);
        assert_eq!(v.get("timestring").unwrap().as_str().unwrap(), row.timestring);
        assert_eq!(v.get("separator").unwrap().as_bool().unwrap(), row.separator);
    }
}

#[test]
fn json_escaping_survives_round_trip() {
    let ct = manual_ct();
    let tricky = "q\"\\\n\t\r\u{8}\u{c}\u{1f}\u{1}caf\u{e9}".to_string();
    let rows = vec![OutputTime {
        timezone_name: "UTC".to_string(),
        timezone_nickname: Some(tricky.clone()),
        displayed_name: "UTC".to_string(),
        day_offset: 0,
        day_offset_str: "".to_string(),
        timestamp: 0,
        timestring: "00:00:00".to_string(),
        separator: false,
    }];
    let out = render(&ct, &rows, OutputFormat::Json);
    let parsed: serde_json::Value = serde_json::from_str(&out).unwrap();
    let back = parsed[0].get("timezone_nickname").unwrap().as_str().unwrap();
    assert_eq!(back, tricky);
}

#[test]
fn render_time_end_to_end_pretty() {
    let now = fixed_now();
    let defines = sample_defines();
    let catalog = sample_catalog();
    let out = render_time(
        None,
        Some("10:00".to_string()),
        OutputFormat::Pretty,
        &defines,
        &catalog,
        &now,
    )
    .unwrap();
    assert!(out.starts_with("Local Time                10:00:00\n\n"));
    assert!(out.contains("[tok] Asia/Tokyo"));
    assert!(out.contains("----------------------------------\n"));
    let local = chrono::Local.with_ymd_and_hms(2024, 6, 15, 10, 0, 0).earliest().unwrap();
    let in_utc = local.with_timezone(&chrono_tz::Tz::UTC);
    assert!(out.contains(&in_utc.time().to_string()));
}

#[test]
fn render_time_anchored_by_nickname() {
    let now = fixed_now();
    let defines = sample_defines();
    let catalog = sample_catalog();
    let out = render_time(
        Some("tok".to_string()),
        Some("09:30".to_string()),
        OutputFormat::Pretty,
        &defines,
        &catalog,
        &now,
    )
    .unwrap();
    assert!(out.starts_with("Time for Asia/Tokyo       09:30:00\n\n"));
}

#[test]
fn render_time_unknown_anchor_falls_back_to_local() {
    let now = fixed_now();
    let defines = sample_defines();
    let catalog = sample_catalog();
    let out = render_time(
        Some("mars".to_string()),
        Some("09:30".to_string()),
        OutputFormat::Pretty,
        &defines,
        &catalog,
        &now,
    )
    .unwrap();
    assert!(out.starts_with("Local Time                09:30:00\n\n"));
}

#[test]
fn render_time_invalid_text_yields_nothing() {
    let now = fixed_now();
    let defines = sample_defines();
    let catalog = sample_catalog();
    let r = render_time(
        None,
        Some("25:99".to_string()),
        OutputFormat::Pretty,
        &defines,
        &catalog,
        &now,
    );
    assert!(r.is_none());
}
