use tc::calendar::convert_date_to_timestamp;
use tc::calendar::is_leap_year;
use tc::calendar::naive_timestamp;
use tc::calendar::ordinal0_of;
use tc::chars::str_contains;
use tc::chars::str_contains_ci;
use tc::numfmt::hms_string;
use tc::numfmt::i64_to_dec;
use tc::numfmt::u64_to_dec;
use tc::numfmt::u8_two_digits;
use tc::parse::TimeTextParse;
use tc::parse::parse_time_text;
use tc::parse::split_time_fields;

#[test]
fn split_fields_basic() {
    let fields = split_time_fields("10:30:45");
    assert_eq!(fields, vec!["10".to_string(), "30".to_string(), "45".to_string()]);
    let fields = split_time_fields("");
    assert_eq!(fields, vec!["".to_string()]);
    let fields = split_time_fields("::");
    assert_eq!(fields, vec!["".to_string(), "".to_string(), "".to_string()]);
}

#[test]
fn parse_three_fields() {
    assert!(matches!(parse_time_text("10:30:45"), TimeTextParse::Explicit(10, 30, 45)));
    assert!(matches!(parse_time_text("0:0:0"), TimeTextParse::Explicit(0, 0, 0)));
    assert!(matches!(parse_time_text("23:59:59"), TimeTextParse::Explicit(23, 59, 59)));
    assert!(matches!(parse_time_text("24:00:00"), TimeTextParse::Invalid));
    assert!(matches!(parse_time_text("10:30:60"), TimeTextParse::Invalid));
}

#[test]
fn parse_two_fields() {
    assert!(matches!(parse_time_text("07:05"), TimeTextParse::Explicit(7, 5, 0)));
    assert!(matches!(parse_time_text("25:99"), TimeTextParse::Invalid));
    assert!(matches!(parse_time_text("7:5"), TimeTextParse::Explicit(7, 5, 0)));
    assert!(matches!(parse_time_text("1x:05"), TimeTextParse::Invalid));
}

#[test]
fn parse_one_field() {
    assert!(matches!(parse_time_text("7"), TimeTextParse::Explicit(7, 0, 0)));
    assert!(matches!(parse_time_text("23"), TimeTextParse::Explicit(23, 0, 0)));
    assert!(matches!(parse_time_text("24"), TimeTextParse::Invalid));
    assert!(matches!(parse_time_text("7a"), TimeTextParse::Invalid));
    assert!(matches!(parse_time_text("007"), TimeTextParse::Invalid));
}

#[test]
fn parse_fallback_shapes() {
    assert!(matches!(parse_time_text(""), TimeTextParse::Fallback));
    assert!(matches!(parse_time_text("a:b:c:d"), TimeTextParse::Fallback));
    assert!(matches!(parse_time_text("1:2:3:4"), TimeTextParse::Fallback));
}

#[test]
fn day_index_formula() {
    // ordinal plus 365 days for each year since 1970, leap years ignored
    assert_eq!(convert_date_to_timestamp(2024, 100), 100 + 54 * 365);
    assert_eq!(convert_date_to_timestamp(1970, 0), 0);
    assert_eq!(convert_date_to_timestamp(1971, 10), 375);
}

#[test]
fn leap_years() {
    assert!(is_leap_year(2024));
    assert!(!is_leap_year(2023));
    assert!(!is_leap_year(1900));
    assert!(is_leap_year(2000));
}

#[test]
fn ordinals() {
    assert_eq!(ordinal0_of(2023, 1, 1), 0);
    assert_eq!(ordinal0_of(2023, 3, 1), 59);
    assert_eq!(ordinal0_of(2024, 3, 1), 60);
    assert_eq!(ordinal0_of(2024, 12, 31), 365);
}

#[test]
fn naive_timestamps() {
    assert_eq!(naive_timestamp(1970, 0, 0, 0, 0), 0);
    // 2016-07-08 09:10:11 UTC
    let o = ordinal0_of(2016, 7, 8);
    assert_eq!(naive_timestamp(2016, o as u32, 9, 10, 11), 1467969011);
    // one day before the epoch
    let o = ordinal0_of(1969, 12, 31);
    assert_eq!(naive_timestamp(1969, o as u32, 0, 0, 0), -86400);
}

#[test]
fn decimal_rendering() {
    assert_eq!(u64_to_dec(0), "0");
    assert_eq!(u64_to_dec(12345), "12345");
    assert_eq!(i64_to_dec(-5), "-5");
    assert_eq!(i64_to_dec(0), "0");
    assert_eq!(i64_to_dec(i64::MIN), "-9223372036854775808");
    assert_eq!(u8_two_digits(7), "07");
    assert_eq!(u8_two_digits(42), "42");
    assert_eq!(hms_string(9, 5, 0), "09:05:00");
}

#[test]
fn day_index_wraps_before_epoch() {
    // years before 1970 wrap around in the 32-bit day index
    assert_eq!(convert_date_to_timestamp(1969, 0), 0u32.wrapping_sub(365));
}

#[test]
fn json_escape_exact() {
    assert_eq!(tc::render::escape_json("plain"), "plain");
    assert_eq!(tc::render::escape_json("a\"b\\c"), "a\\\"b\\\\c");
    assert_eq!(tc::render::escape_json("x\ny"), "x\\ny");
    assert_eq!(tc::render::escape_json("\u{1f}"), "\\u001f");
}

#[test]
fn substring_search() {
    assert!(str_contains("Asia/Tokyo", "Tokyo"));
    assert!(str_contains("abc", ""));
    assert!(!str_contains("abc", "abcd"));
    assert!(!str_contains("Asia/Tokyo", "tokyo"));
}

#[test]
fn substring_search_case_insensitive() {
    assert!(str_contains_ci("FooBar", "OBA"));
    assert!(str_contains_ci("asia/tokyo", "TOKYO"));
    assert!(!str_contains_ci("FooBar", "baz"));
}
