use doit::dates::{
    add_months, current_ym, date_part, date_text, datetime_string, day_num, format_time, iso_in_range,
    md_dash, month_bounds, month_caption, month_day, range_bounds, range_label, stats_range_ok, ts,
    weekday_cn, StatsPeriod, Ymd,
};
use doit::text::{
    decimal, eq_ignore_ascii_case, join_strings, parse_u32, str_lt, trim, trim_end_char, contains_str,
};

fn ymd(year: i32, month: u32, day: u32) -> Ymd {
    Ymd { year, month, day }
}

#[test]
fn add_months_wraps_years() {
    assert_eq!(add_months(2024, 1, -1), (2023, 12));
    assert_eq!(add_months(2024, 12, 1), (2025, 1));
    assert_eq!(add_months(2024, 5, -11), (2023, 6));
    assert_eq!(add_months(2024, 5, 0), (2024, 5));
    assert_eq!(add_months(0, 1, -1), (-1, 12));
}

#[test]
fn add_months_round_trip() {
    for &(y, m, d) in &[(2024, 3, 7), (1999, 12, -25), (-3, 1, 13), (2024, 6, 0)] {
        let (y2, m2) = add_months(y, m, d);
        assert_eq!(add_months(y2, m2, -d), (y, m));
    }
}

#[test]
fn month_bounds_know_leap_years() {
    assert_eq!(month_bounds(2024, 2), (ymd(2024, 2, 1), ymd(2024, 2, 29)));
    assert_eq!(month_bounds(2023, 2), (ymd(2023, 2, 1), ymd(2023, 2, 28)));
    assert_eq!(month_bounds(1900, 2), (ymd(1900, 2, 1), ymd(1900, 2, 28)));
    assert_eq!(month_bounds(2000, 2), (ymd(2000, 2, 1), ymd(2000, 2, 29)));
    assert_eq!(month_bounds(2024, 12), (ymd(2024, 12, 1), ymd(2024, 12, 31)));
    assert_eq!(month_bounds(2024, 4), (ymd(2024, 4, 1), ymd(2024, 4, 30)));
}

#[test]
fn week_range_starts_on_monday() {
    let wed = ymd(2024, 5, 15);
    assert_eq!(range_bounds(StatsPeriod::Week, (2024, 5), 0, wed), (ymd(2024, 5, 13), ymd(2024, 5, 19)));
    assert_eq!(range_bounds(StatsPeriod::Week, (2024, 5), -1, wed), (ymd(2024, 5, 6), ymd(2024, 5, 12)));
    let sunday = ymd(2024, 5, 19);
    assert_eq!(range_bounds(StatsPeriod::Week, (2024, 5), 0, sunday), (ymd(2024, 5, 13), ymd(2024, 5, 19)));
    assert_eq!(range_bounds(StatsPeriod::Month, (2024, 2), 3, wed), (ymd(2024, 2, 1), ymd(2024, 2, 29)));
}

#[test]
fn day_numbers_count_from_the_epoch() {
    assert_eq!(day_num(ymd(1970, 1, 1)), 0);
    assert_eq!(day_num(ymd(2000, 3, 1)), 11017);
    assert_eq!(day_num(ymd(1969, 12, 31)), -1);
    assert_eq!(day_num(ymd(2024, 5, 13)) - day_num(ymd(2024, 5, 6)), 7);
}

#[test]
fn stats_ranges_that_can_be_built() {
    let d = ymd(2024, 5, 15);
    assert!(stats_range_ok(StatsPeriod::Month, (2024, 5), 0, d));
    assert!(!stats_range_ok(StatsPeriod::Month, (2024, 13), 0, d));
    assert!(!stats_range_ok(StatsPeriod::Month, (262142, 12), 0, d));
    assert!(stats_range_ok(StatsPeriod::Week, (2024, 13), -1, d));
    assert!(!stats_range_ok(StatsPeriod::Week, (2024, 5), i32::MAX, d));
}

#[test]
fn current_month_is_a_month() {
    let (_, m) = current_ym();
    assert!((1..=12).contains(&m));
}

#[test]
fn date_parts_of_timestamps() {
    assert_eq!(date_part("2024-05-06T09:15:00"), "2024-05-06");
    assert_eq!(date_part("2024-05"), "2024-05");
    assert_eq!(month_day("2024-05-06"), "05-06");
    assert_eq!(month_day("05-06"), "05-06");
    assert_eq!(format_time(&Some("2024-05-06T09:15:00".to_string())), "09:15");
    assert_eq!(format_time(&Some("2024-05-06".to_string())), "");
    assert_eq!(format_time(&None), "");
}

#[test]
fn timestamps_fall_in_ranges() {
    let s = ymd(2024, 5, 1);
    let e = ymd(2024, 5, 31);
    assert!(iso_in_range("2024-05-06T09:15:00", s, e));
    assert!(iso_in_range("2024-05-31", s, e));
    assert!(!iso_in_range("2024-06-01T00:00:00", s, e));
    assert!(!iso_in_range("garbage", s, e));
    assert!(!iso_in_range("", s, e));
}

#[test]
fn weekday_names() {
    assert_eq!(weekday_cn("2024-05-06"), "周一");
    assert_eq!(weekday_cn("2024-05-12"), "周日");
    assert_eq!(weekday_cn("1970-01-01"), "周四");
    assert_eq!(weekday_cn("not-a-day"), "");
}

#[test]
fn date_texts_follow_chrono_formats() {
    assert_eq!(date_text(ymd(2024, 5, 6)), "2024-05-06");
    assert_eq!(date_text(ymd(5, 1, 2)), "0005-01-02");
    assert_eq!(date_text(ymd(-1, 1, 2)), "-0001-01-02");
    assert_eq!(date_text(ymd(12345, 1, 2)), "+12345-01-02");
    assert_eq!(datetime_string(ymd(2024, 5, 6), 9, 5, 0), "2024-05-06T09:05:00");
    assert_eq!(md_dash(ymd(2024, 5, 6)), "05-06");
}

#[test]
fn range_captions() {
    assert_eq!(range_label(ymd(2024, 5, 1), ymd(2024, 5, 31)), "2024年05月");
    assert_eq!(range_label(ymd(2024, 5, 27), ymd(2024, 6, 2)), "05月27日 至 06月02日");
    assert_eq!(month_caption(2024, 5), "2024年05月");
    assert_eq!(month_caption(-5, 1), "-005年01月");
}

#[test]
fn demo_timestamps_have_the_given_time() {
    let t = ts(0, 9, 15);
    assert_eq!(t.len(), 19);
    assert!(t.ends_with("T09:15:00"));
    let u = ts(2, 10, 30);
    assert!(u.ends_with("T10:30:00"));
    assert!(u.is_ascii());
}

#[test]
fn numbers_read_as_from_str_does() {
    assert_eq!(parse_u32("42"), Some(42));
    assert_eq!(parse_u32("+7"), Some(7));
    assert_eq!(parse_u32("007"), Some(7));
    assert_eq!(parse_u32("4294967295"), Some(u32::MAX));
    assert_eq!(parse_u32("4294967296"), None);
    assert_eq!(parse_u32("99999999999999999999"), None);
    assert_eq!(parse_u32(""), None);
    assert_eq!(parse_u32("+"), None);
    assert_eq!(parse_u32("-1"), None);
    assert_eq!(parse_u32(" 5"), None);
    assert_eq!(parse_u32("5x"), None);
    for n in [0u32, 3, 30, 1000, u32::MAX] {
        assert_eq!(parse_u32(&decimal(n as u64)), n.to_string().parse::<u32>().ok());
        assert_eq!(parse_u32(&decimal(n as u64)), Some(n));
    }
}

#[test]
fn text_helpers() {
    assert_eq!(trim("  a b \n"), "a b");
    assert_eq!(trim(" \u{3000}x\u{3000}"), "x");
    assert_eq!(trim_end_char("https://a/b///", '/'), "https://a/b");
    assert!(eq_ignore_ascii_case("ENTER", "enter"));
    assert!(!eq_ignore_ascii_case("Enter", "Entr"));
    assert!(str_lt("2024-05-01T09:00:00", "2024-05-01T10:00:00"));
    assert!(!str_lt("b", "a"));
    assert!(str_lt("", "a"));
    assert!(!str_lt("a", "a"));
    assert_eq!(join_strings(&vec!["a".into(), "b".into()], ", "), "a, b");
    assert_eq!(join_strings(&Vec::new(), ", "), "");
    assert!(contains_str("invalid peer certificate", "peer"));
    assert!(!contains_str("abc", "abd"));
    assert_eq!(decimal(0), "0");
    assert_eq!(decimal(1234567890123), "1234567890123");
}
