use git_date_modifier::datetime::DateTime;
use git_date_modifier::prompt::{obtain_date, prompt_attempt, trim_ws};

fn lines(xs: &[&str]) -> Vec<String> {
    xs.iter().map(|x| x.to_string()).collect()
}

#[test]
fn trims_both_ends() {
    assert_eq!(trim_ws("  hello \n"), "hello");
    assert_eq!(trim_ws("\t\r\n"), "");
    assert_eq!(trim_ws("plain"), "plain");
    assert_eq!(trim_ws(""), "");
    assert_eq!(trim_ws("a b"), "a b");
}

#[test]
fn attempt_accepts_line_with_newline() {
    let d = prompt_attempt("2020-01-01 00:00:00\n").unwrap();
    assert_eq!(d, DateTime { year: 2020, month: 1, day: 1, hour: 0, minute: 0, second: 0 });
}

#[test]
fn attempt_accepts_padded_line() {
    assert!(prompt_attempt("  2020-06-01 00:00:00  ").is_some());
}

#[test]
fn attempt_rejects_malformed_line() {
    assert!(prompt_attempt("yesterday\n").is_none());
    assert!(prompt_attempt("\n").is_none());
    assert!(prompt_attempt("2020-01-01  00:00:00\n").is_none());
}

#[test]
fn attempt_is_deterministic() {
    let a = prompt_attempt("2020-01-01 00:00:00\n");
    let b = prompt_attempt("2020-01-01 00:00:00\n");
    assert_eq!(a, b);
}

#[test]
fn first_valid_line_returns_after_one_line() {
    let input = lines(&["2021-01-01 00:00:00\n", "2022-01-01 00:00:00\n"]);
    let (d, consumed) = obtain_date(&input).unwrap();
    assert_eq!(consumed, 1);
    assert_eq!(d.year, 2021);
}

#[test]
fn two_invalid_attempts_then_valid_consumes_three_lines() {
    let input = lines(&["nonsense\n", "2020-1-1\n", "2020-05-04 10:20:30\n"]);
    let (d, consumed) = obtain_date(&input).unwrap();
    assert_eq!(consumed, 3);
    assert_eq!(d, DateTime { year: 2020, month: 5, day: 4, hour: 10, minute: 20, second: 30 });
}

#[test]
fn never_returns_on_all_invalid_input() {
    let input = lines(&["a\n", "b\n", "2020-02-30 00:00:00\n"]);
    assert!(obtain_date(&input).is_none());
}

#[test]
fn empty_stream_yields_nothing() {
    assert!(obtain_date(&Vec::new()).is_none());
}
