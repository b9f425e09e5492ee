use git_date_modifier::datetime::{
    days_in_month_exec, format_date_time, is_leap_year_exec, parse_date_time, valid_date_exec,
    DateTime,
};

fn dt(year: u32, month: u32, day: u32, hour: u32, minute: u32, second: u32) -> DateTime {
    DateTime { year, month, day, hour, minute, second }
}

#[test]
fn parses_plain_date() {
    let d = parse_date_time("2020-01-01 00:00:00").unwrap();
    assert_eq!(d, dt(2020, 1, 1, 0, 0, 0));
}

#[test]
fn parses_arbitrary_date() {
    let d = parse_date_time("1999-12-31 23:59:59").unwrap();
    assert_eq!(d, dt(1999, 12, 31, 23, 59, 59));
}

#[test]
fn parses_leap_day_in_leap_year() {
    let d = parse_date_time("2020-02-29 12:30:45").unwrap();
    assert_eq!(d, dt(2020, 2, 29, 12, 30, 45));
}

#[test]
fn parses_leap_day_in_year_divisible_by_400() {
    assert!(parse_date_time("2000-02-29 00:00:00").is_some());
}

#[test]
fn rejects_leap_day_in_common_year() {
    assert!(parse_date_time("2021-02-29 00:00:00").is_none());
}

#[test]
fn rejects_leap_day_in_year_divisible_by_100_only() {
    assert!(parse_date_time("1900-02-29 00:00:00").is_none());
}

#[test]
fn rejects_day_beyond_month_end() {
    assert!(parse_date_time("2020-02-30 00:00:00").is_none());
    assert!(parse_date_time("2020-04-31 00:00:00").is_none());
    assert!(parse_date_time("2020-01-32 00:00:00").is_none());
}

#[test]
fn rejects_field_ranges() {
    assert!(parse_date_time("2020-00-01 00:00:00").is_none());
    assert!(parse_date_time("2020-13-01 00:00:00").is_none());
    assert!(parse_date_time("2020-01-00 00:00:00").is_none());
    assert!(parse_date_time("2020-01-01 24:00:00").is_none());
    assert!(parse_date_time("2020-01-01 00:60:00").is_none());
    assert!(parse_date_time("2020-01-01 00:00:60").is_none());
}

#[test]
fn rejects_wrong_separators() {
    assert!(parse_date_time("2020/01/01 00:00:00").is_none());
    assert!(parse_date_time("2020-01-01T00:00:00").is_none());
    assert!(parse_date_time("2020-01-01 00-00-00").is_none());
}

#[test]
fn rejects_wrong_length() {
    assert!(parse_date_time("").is_none());
    assert!(parse_date_time("2020-1-1 00:00:00").is_none());
    assert!(parse_date_time("2020-01-01 00:00:00 ").is_none());
    assert!(parse_date_time("2020-01-01 00:00").is_none());
}

#[test]
fn rejects_non_digits() {
    assert!(parse_date_time("20x0-01-01 00:00:00").is_none());
    assert!(parse_date_time("2020-01-01 0a:00:00").is_none());
}

#[test]
fn formats_exactly() {
    let s = format_date_time(&dt(2020, 6, 1, 0, 0, 0));
    assert_eq!(s, "2020-06-01 00:00:00");
}

#[test]
fn formats_with_padding() {
    let s = format_date_time(&dt(1, 2, 3, 4, 5, 6));
    assert_eq!(s, "0001-02-03 04:05:06");
}

#[test]
fn format_then_parse_round_trip() {
    let d = dt(2021, 1, 1, 23, 59, 59);
    let s = format_date_time(&d);
    assert_eq!(parse_date_time(&s).unwrap(), d);
}

#[test]
fn parse_then_format_round_trip() {
    let input = "1987-11-05 07:08:09";
    let d = parse_date_time(input).unwrap();
    assert_eq!(format_date_time(&d), input);
}

#[test]
fn leap_year_rule() {
    assert!(is_leap_year_exec(2020));
    assert!(!is_leap_year_exec(2021));
    assert!(!is_leap_year_exec(1900));
    assert!(is_leap_year_exec(2000));
}

#[test]
fn month_lengths() {
    assert_eq!(days_in_month_exec(2021, 1), 31);
    assert_eq!(days_in_month_exec(2021, 2), 28);
    assert_eq!(days_in_month_exec(2020, 2), 29);
    assert_eq!(days_in_month_exec(2021, 4), 30);
    assert_eq!(days_in_month_exec(2021, 12), 31);
}

#[test]
fn validity_check() {
    assert!(valid_date_exec(&dt(2020, 2, 29, 23, 59, 59)));
    assert!(!valid_date_exec(&dt(2021, 2, 29, 0, 0, 0)));
    assert!(!valid_date_exec(&dt(10000, 1, 1, 0, 0, 0)));
}
