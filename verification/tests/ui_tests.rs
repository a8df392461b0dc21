use chrono::{Local, TimeZone};
use f5h::datetime::{fmt_datetime, format_datetime, now_str};
use f5h::display::{fmt_cpt_parts, fmt_mode, padl, padr, sw, trunc};

#[test]
fn test_sw_ascii() {
    assert_eq!(sw("hello"), 5);
    assert_eq!(sw(""), 0);
    assert_eq!(sw("a"), 1);
}

#[test]
fn test_sw_cjk_double_width() {
    assert_eq!(sw("日本語"), 6);
    assert_eq!(sw("A日B"), 4);
}

#[test]
fn test_sw_mixed() {
    assert_eq!(sw("abc日本"), 7);
}

#[test]
fn test_trunc_under_limit() {
    assert_eq!(trunc("hello", 10), "hello");
}

#[test]
fn test_trunc_exact_limit() {
    assert_eq!(trunc("hello", 5), "hello");
}

#[test]
fn test_trunc_over_limit() {
    assert_eq!(trunc("hello world", 5), "hello");
}

#[test]
fn test_trunc_cjk_fits_exactly() {
    assert_eq!(trunc("日本語", 4), "日本");
}

#[test]
fn test_trunc_cjk_with_tilde() {
    assert_eq!(trunc("日本語", 5), "日本~");
}

#[test]
fn test_trunc_cjk_odd_width() {
    assert_eq!(trunc("日本語", 3), "日~");
}

#[test]
fn test_padr_pads_right() {
    assert_eq!(padr("hi", 5), "hi   ");
}

#[test]
fn test_padr_exact() {
    assert_eq!(padr("hello", 5), "hello");
}

#[test]
fn test_padr_truncates() {
    assert_eq!(padr("hello world", 5), "hello");
}

#[test]
fn test_padr_cjk() {
    assert_eq!(padr("日", 5), "日   ");
}

#[test]
fn test_padl_pads_left() {
    assert_eq!(padl("hi", 5), "   hi");
}

#[test]
fn test_padl_exact() {
    assert_eq!(padl("hello", 5), "hello");
}

#[test]
fn test_padl_truncates() {
    assert_eq!(padl("hello world", 5), "hello");
}

#[test]
fn test_fmt_mode_regular_rw() {
    assert_eq!(fmt_mode(0o644, false, false), "-rw-r--r--");
}

#[test]
fn test_fmt_mode_executable() {
    assert_eq!(fmt_mode(0o755, false, false), "-rwxr-xr-x");
}

#[test]
fn test_fmt_mode_directory() {
    assert_eq!(fmt_mode(0o755, true, false), "drwxr-xr-x");
}

#[test]
fn test_fmt_mode_symlink() {
    assert_eq!(fmt_mode(0o777, false, true), "lrwxrwxrwx");
}

#[test]
fn test_fmt_mode_no_permissions() {
    assert_eq!(fmt_mode(0o000, false, false), "----------");
}

#[test]
fn test_fmt_mode_all_permissions() {
    assert_eq!(fmt_mode(0o777, false, false), "-rwxrwxrwx");
}

#[test]
fn test_fmt_cpt_parts_bytes() {
    let (n, u) = fmt_cpt_parts(512);
    assert_eq!(u, "B");
    assert_eq!(n, "512");
}

#[test]
fn test_fmt_cpt_parts_boundary_ki() {
    let (_, u) = fmt_cpt_parts(1024);
    assert_eq!(u, "Ki");
}

#[test]
fn test_fmt_cpt_parts_ki() {
    let (n, u) = fmt_cpt_parts(2 * 1024);
    assert_eq!(u, "Ki");
    assert_eq!(n, "2");
}

#[test]
fn test_fmt_cpt_parts_mi() {
    let (n, u) = fmt_cpt_parts(5 * 1024 * 1024);
    assert_eq!(u, "Mi");
    assert_eq!(n, "5");
}

#[test]
fn test_fmt_cpt_parts_gi() {
    let (n, u) = fmt_cpt_parts(10 * 1024 * 1024 * 1024);
    assert_eq!(u, "Gi");
    assert_eq!(n, "10");
}

#[test]
fn trunc_control_characters_count_one_column() {
    assert_eq!(trunc("a\tb", 2), "a\t");
    assert_eq!(trunc("", 3), "");
    assert_eq!(trunc("abc", 0), "");
}

#[test]
fn format_datetime_pads_fields() {
    let (d, t, f) = format_datetime((2024, 2, 9, 7, 5, 3));
    assert_eq!(d, "2024-02-09");
    assert_eq!(t, "07:05");
    assert_eq!(f, "07:05:03");
    let (d, _, _) = format_datetime((987, 12, 31, 23, 59, 59));
    assert_eq!(d, "0987-12-31");
    let (d, _, _) = format_datetime((12345, 1, 1, 0, 0, 0));
    assert_eq!(d, "+12345-01-01");
    let (d, _, _) = format_datetime((-5, 1, 1, 0, 0, 0));
    assert_eq!(d, "-0005-01-01");
}

fn chrono_parts(secs: i64) -> (String, String, String) {
    let dt = Local.timestamp_opt(secs, 0).single().unwrap();
    (
        dt.format("%Y-%m-%d").to_string(),
        dt.format("%H:%M").to_string(),
        dt.format("%H:%M:%S").to_string(),
    )
}

#[test]
fn test_fmt_datetime_epoch() {
    let (date, time, full) = fmt_datetime(0);
    let (d, t, f) = chrono_parts(0);
    assert_eq!(date, d);
    assert_eq!(time, t);
    assert_eq!(full, f);
}

#[test]
fn test_fmt_datetime_one_day() {
    let (date, _, _) = fmt_datetime(86400);
    assert_eq!(date, chrono_parts(86400).0);
}

#[test]
fn test_fmt_datetime_year_end() {
    let (date, _, _) = fmt_datetime(364 * 86400);
    assert_eq!(date, chrono_parts(364 * 86400).0);
}

#[test]
fn test_fmt_datetime_leap_day() {
    let ts = 789_u64 * 86400;
    let (date, _, _) = fmt_datetime(ts);
    assert_eq!(date, chrono_parts(ts as i64).0);
}

#[test]
fn test_fmt_datetime_time_components() {
    let (_, time, full) = fmt_datetime(45296);
    let (_, t, f) = chrono_parts(45296);
    assert_eq!(time, t);
    assert_eq!(full, f);
}

#[test]
fn now_str_has_date_and_time() {
    let s = now_str();
    assert_eq!(s.chars().count(), 19);
    assert_eq!(s.chars().nth(10), Some(' '));
}

#[test]
fn unix_timestamp_as_local_time() {
    let secs: i64 = 1_700_000_000;
    let expected = Local.timestamp_opt(secs, 0).single().map(|d| d.format("%Y-%m-%d %H:%M:%S").to_string()).unwrap_or_else(|| "?".to_string());
    assert_eq!(f5h::datetime::format_unix_timestamp(secs), expected);
}

#[test]
fn fmt_datetime_out_of_range_falls_back_to_epoch() {
    assert_eq!(fmt_datetime(i64::MAX as u64), fmt_datetime(0));
}

#[test]
fn unix_timestamp_outside_the_calendar_is_unknown() {
    assert_eq!(f5h::datetime::format_unix_timestamp(i64::MAX), "?");
    assert_ne!(f5h::datetime::format_unix_timestamp(0), "?");
}
