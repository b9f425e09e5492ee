use git_date_modifier::datetime::{format_date_time, parse_date_time, DateTime};
use git_date_modifier::driver::{
    first_line, line_signals_clean, status_signals_clean, DriverState, RebaseDriver,
};
use git_date_modifier::history::parse_log;
use git_date_modifier::prompt::obtain_date;

const BUSY: &str = "interactive rebase in progress; onto 1a2b3c4\nLast command done:\n";
const CLEAN: &str = "On branch master\nnothing to commit, working tree clean\n";

fn dt(year: u32, month: u32, day: u32, hour: u32, minute: u32, second: u32) -> DateTime {
    DateTime { year, month, day, hour, minute, second }
}

#[test]
fn first_line_cuts_at_newline() {
    assert_eq!(first_line("one\ntwo\n"), "one");
    assert_eq!(first_line("alone"), "alone");
    assert_eq!(first_line(""), "");
    assert_eq!(first_line("\nrest"), "");
}

#[test]
fn marker_is_recognised() {
    assert!(line_signals_clean("On branch master"));
    assert!(line_signals_clean("HEAD is On branch main now"));
    assert!(!line_signals_clean("interactive rebase in progress; onto 1a2b3c4"));
    assert!(!line_signals_clean("on branch master"));
    assert!(!line_signals_clean("On branc"));
    assert!(!line_signals_clean(""));
}

#[test]
fn only_the_first_line_is_inspected() {
    assert!(status_signals_clean(CLEAN));
    assert!(!status_signals_clean(BUSY));
    assert!(!status_signals_clean("rebase in progress\nOn branch master\n"));
}

#[test]
fn done_exactly_when_first_line_is_clean() {
    let mut d = RebaseDriver::new(1);
    d.start();
    assert_eq!(d.observe_status(CLEAN), DriverState::Done);

    let mut d = RebaseDriver::new(1);
    d.start();
    assert_eq!(d.observe_status(BUSY), DriverState::Amending);
}

#[test]
fn amend_renders_the_local_committer_date() {
    let mut d = RebaseDriver::new(1);
    d.start();
    assert_eq!(d.observe_status(BUSY), DriverState::Amending);
    let s = d.supply_date(&dt(2020, 1, 1, 0, 0, 0)).unwrap();
    assert_eq!(s, "Wed Jan  1 00:00:00 2020");
    assert_eq!(d.state, DriverState::Continuing);
    assert_eq!(d.amended, 1);
}

#[test]
fn rendering_is_a_function_of_the_date_alone() {
    let date = dt(2021, 7, 15, 8, 9, 10);
    let mut a = RebaseDriver::new(1);
    a.start();
    assert_eq!(a.observe_status(BUSY), DriverState::Amending);
    let mut b = RebaseDriver::new(1);
    b.start();
    assert_eq!(b.observe_status(BUSY), DriverState::Amending);
    assert_eq!(a.supply_date(&date).unwrap(), b.supply_date(&date).unwrap());
}

#[test]
fn overrunning_the_commit_count_fails_loudly() {
    let mut d = RebaseDriver::new(0);
    d.start();
    assert_eq!(d.observe_status(BUSY), DriverState::Failed);
}

#[test]
fn clean_status_ends_the_session_even_at_the_bound() {
    let mut d = RebaseDriver::new(0);
    d.start();
    assert_eq!(d.observe_status(CLEAN), DriverState::Done);
}

#[test]
fn three_commit_session() {
    // A three-commit repository, newest first, as the history reader sees it.
    let before = "ccc3333 \"2019-03-03 03:03:03\"\nbbb2222 \"2019-02-02 02:02:02\"\naaa1111 \"2019-01-01 01:01:01\"\n";
    let commits = parse_log(before).unwrap();
    assert_eq!(commits.len(), 3);

    // The operator's oldest-first replacement dates, one valid line each.
    let operator_lines: Vec<String> = vec![
        "2020-01-01 00:00:00\n".to_string(),
        "2020-06-01 00:00:00\n".to_string(),
        "2021-01-01 00:00:00\n".to_string(),
    ];

    let mut driver = RebaseDriver::new(commits.len());
    driver.start();
    let mut chosen: Vec<DateTime> = Vec::new();
    let mut rounds = 0;
    loop {
        let status = if rounds < 3 { BUSY } else { CLEAN };
        match driver.observe_status(status) {
            DriverState::Done => break,
            DriverState::Amending => {
                let stream = vec![operator_lines[rounds].clone()];
                let (date, consumed) = obtain_date(&stream).unwrap();
                assert_eq!(consumed, 1);
                let rendered = driver.supply_date(&date).unwrap();
                assert!(!rendered.is_empty());
                chosen.push(date);
                driver.advance();
                rounds += 1;
            },
            other => panic!("unexpected driver state: {:?}", other),
        }
    }
    assert_eq!(driver.state, DriverState::Done);
    assert_eq!(driver.amended, 3);
    assert_eq!(chosen.len(), 3);

    // After the session, a newest-first read reports the three dates in
    // reverse order: rebuild the listing from the chosen dates and read it.
    let after = format!(
        "fff0003 \"{}\"\nfff0002 \"{}\"\nfff0001 \"{}\"\n",
        format_date_time(&chosen[2]),
        format_date_time(&chosen[1]),
        format_date_time(&chosen[0]),
    );
    let reread = parse_log(&after).unwrap();
    assert_eq!(reread.len(), 3);
    assert_eq!(reread[0].timestamp, parse_date_time("2020-01-01 00:00:00").unwrap());
    assert_eq!(reread[1].timestamp, parse_date_time("2020-06-01 00:00:00").unwrap());
    assert_eq!(reread[2].timestamp, parse_date_time("2021-01-01 00:00:00").unwrap());
}

#[test]
fn amend_then_reread_gives_the_same_second() {
    // Round trip: the date an operator supplies, rendered in the fixed
    // pattern and read back through the history reader, is unchanged to
    // the second.
    let d = dt(2020, 6, 1, 12, 34, 56);
    let line = format!("abc1234 \"{}\"", format_date_time(&d));
    let v = parse_log(&line).unwrap();
    assert_eq!(v.len(), 1);
    assert_eq!(v[0].timestamp, d);
}
