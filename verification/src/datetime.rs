//! Calendar date-times as plain values, with a verified parser and formatter
//! for the fixed operator-facing pattern `YYYY-MM-DD HH:MM:SS`.

use vstd::prelude::*;

verus! {

broadcast use vstd::arithmetic::div_mod::lemma_fundamental_div_mod;

/// A calendar date-time down to the second, held as plain fields. The local
/// time zone is implied by context and never stored.
#[derive(Clone, Copy, PartialEq, Eq, Structural, Debug)]
pub struct DateTime {
    pub year: u32,
    pub month: u32,
    pub day: u32,
    pub hour: u32,
    pub minute: u32,
    pub second: u32,
}

/// Gregorian leap-year rule.
pub open spec fn is_leap_year(y: int) -> bool {
    (y % 4 == 0 && y % 100 != 0) || y % 400 == 0
}

/// Number of days in a month of a given year.
pub open spec fn days_in_month(y: int, m: int) -> int {
    if m == 2 {
        if is_leap_year(y) {
            29
        } else {
            28
        }
    } else if m == 4 || m == 6 || m == 9 || m == 11 {
        30
    } else {
        31
    }
}

/// A `DateTime` whose fields denote a real calendar instant, with a year
/// small enough to print as four digits.
pub open spec fn valid_date(d: DateTime) -> bool {
    &&& d.year <= 9999
    &&& 1 <= d.month <= 12
    &&& 1 <= d.day <= days_in_month(d.year as int, d.month as int)
    &&& d.hour <= 23
    &&& d.minute <= 59
    &&& d.second <= 59
}

pub open spec fn is_digit(c: char) -> bool {
    '0' as u32 <= c as u32 <= '9' as u32
}

pub open spec fn digit_val(c: char) -> int {
    c as u32 - '0' as u32
}

/// The value of the two digits at positions `i` and `i + 1`.
pub open spec fn two_digit_val(s: Seq<char>, i: int) -> int {
    10 * digit_val(s[i]) + digit_val(s[i + 1])
}

/// The value of the four digits at positions 0 through 3.
pub open spec fn year_val(s: Seq<char>) -> int {
    1000 * digit_val(s[0]) + 100 * digit_val(s[1]) + 10 * digit_val(s[2]) + digit_val(s[3])
}

/// Pure syntax of the pattern: nineteen characters, digits and separators in
/// their fixed places.
pub open spec fn date_str_shape(s: Seq<char>) -> bool {
    &&& s.len() == 19
    &&& is_digit(s[0]) && is_digit(s[1]) && is_digit(s[2]) && is_digit(s[3])
    &&& s[4] == '-'
    &&& is_digit(s[5]) && is_digit(s[6])
    &&& s[7] == '-'
    &&& is_digit(s[8]) && is_digit(s[9])
    &&& s[10] == ' '
    &&& is_digit(s[11]) && is_digit(s[12])
    &&& s[13] == ':'
    &&& is_digit(s[14]) && is_digit(s[15])
    &&& s[16] == ':'
    &&& is_digit(s[17]) && is_digit(s[18])
}

/// The date-time a well-shaped string denotes.
pub open spec fn date_of_str(s: Seq<char>) -> DateTime {
    DateTime {
        year: year_val(s) as u32,
        month: two_digit_val(s, 5) as u32,
        day: two_digit_val(s, 8) as u32,
        hour: two_digit_val(s, 11) as u32,
        minute: two_digit_val(s, 14) as u32,
        second: two_digit_val(s, 17) as u32,
    }
}

/// A string the parser accepts: right shape, and the fields denote a real
/// calendar instant.
pub open spec fn date_str_wf(s: Seq<char>) -> bool {
    date_str_shape(s) && valid_date(date_of_str(s))
}

/// Calendar order of two date-times: `a` is no later than `b`.
pub open spec fn date_le(a: DateTime, b: DateTime) -> bool {
    if a.year != b.year {
        a.year < b.year
    } else if a.month != b.month {
        a.month < b.month
    } else if a.day != b.day {
        a.day < b.day
    } else if a.hour != b.hour {
        a.hour < b.hour
    } else if a.minute != b.minute {
        a.minute < b.minute
    } else {
        a.second <= b.second
    }
}

/// Calendar order is transitive.
pub proof fn lemma_date_le_trans(a: DateTime, b: DateTime, c: DateTime)
    requires
        date_le(a, b),
        date_le(b, c),
    ensures
        date_le(a, c),
{
}

/// Runtime check of the leap-year rule.
pub fn is_leap_year_exec(y: u32) -> (r: bool)
    ensures
        r == is_leap_year(y as int),
{
    (y % 4 == 0 && y % 100 != 0) || y % 400 == 0
}

/// Runtime table of month lengths.
pub fn days_in_month_exec(y: u32, m: u32) -> (r: u32)
    ensures
        r == days_in_month(y as int, m as int),
{
    if m == 2 {
        if is_leap_year_exec(y) {
            29
        } else {
            28
        }
    } else if m == 4 || m == 6 || m == 9 || m == 11 {
        30
    } else {
        31
    }
}

/// Runtime check that the fields denote a real calendar instant.
pub fn valid_date_exec(d: &DateTime) -> (r: bool)
    ensures
        r == valid_date(*d),
{
    d.year <= 9999 && 1 <= d.month && d.month <= 12 && 1 <= d.day && d.day <= days_in_month_exec(
        d.year,
        d.month,
    ) && d.hour <= 23 && d.minute <= 59 && d.second <= 59
}

/// Reads the digit at position `i`, or `None` if another character stands
/// there.
fn digit_at(s: &str, i: usize) -> (r: Option<u32>)
    requires
        i < s@.len(),
    ensures
        r is Some <==> is_digit(s@[i as int]),
        r matches Some(v) ==> v == digit_val(s@[i as int]) && v <= 9,
{
    let c = s.get_char(i);
    let u = c as u32;
    if 48 <= u && u <= 57 {
        Some(u - 48)
    } else {
        None
    }
}

/// Reads the two-digit number at positions `i` and `i + 1`, or `None` if
/// either position holds a non-digit.
fn two_digits_at(s: &str, i: usize) -> (r: Option<u32>)
    requires
        i + 1 < s@.len(),
        s@.len() <= usize::MAX,
    ensures
        r is Some <==> is_digit(s@[i as int]) && is_digit(s@[i as int + 1]),
        r matches Some(v) ==> v == two_digit_val(s@, i as int) && v <= 99,
{
    let hi = match digit_at(s, i) {
        Some(v) => v,
        None => return None,
    };
    let lo = match digit_at(s, i + 1) {
        Some(v) => v,
        None => return None,
    };
    Some(10 * hi + lo)
}

/// True when the character at position `i` is exactly `c`.
fn char_at_is(s: &str, i: usize, c: char) -> (r: bool)
    requires
        i < s@.len(),
    ensures
        r == (s@[i as int] == c),
{
    s.get_char(i) == c
}

/// Parses the fixed pattern `YYYY-MM-DD HH:MM:SS`. Returns the denoted
/// date-time exactly when the input has the right shape and the fields form a
/// real calendar instant; on any other input returns `None`.
pub fn parse_date_time(s: &str) -> (r: Option<DateTime>)
    ensures
        r is Some <==> date_str_wf(s@),
        r matches Some(d) ==> d == date_of_str(s@) && valid_date(d),
{
    if s.unicode_len() != 19 {
        return None;
    }
    let y_hi = match two_digits_at(s, 0) {
        Some(v) => v,
        None => return None,
    };
    let y_lo = match two_digits_at(s, 2) {
        Some(v) => v,
        None => return None,
    };
    let month = match two_digits_at(s, 5) {
        Some(v) => v,
        None => return None,
    };
    let day = match two_digits_at(s, 8) {
        Some(v) => v,
        None => return None,
    };
    let hour = match two_digits_at(s, 11) {
        Some(v) => v,
        None => return None,
    };
    let minute = match two_digits_at(s, 14) {
        Some(v) => v,
        None => return None,
    };
    let second = match two_digits_at(s, 17) {
        Some(v) => v,
        None => return None,
    };
    if !(char_at_is(s, 4, '-') && char_at_is(s, 7, '-') && char_at_is(s, 10, ' ') && char_at_is(
        s,
        13,
        ':',
    ) && char_at_is(s, 16, ':')) {
        return None;
    }
    let d = DateTime { year: 100 * y_hi + y_lo, month, day, hour, minute, second };
    assert(d.year == year_val(s@));
    if valid_date_exec(&d) {
        Some(d)
    } else {
        None
    }
}

/// The character that prints a single decimal digit.
pub open spec fn digit_char(v: int) -> char {
    if v == 0 {
        '0'
    } else if v == 1 {
        '1'
    } else if v == 2 {
        '2'
    } else if v == 3 {
        '3'
    } else if v == 4 {
        '4'
    } else if v == 5 {
        '5'
    } else if v == 6 {
        '6'
    } else if v == 7 {
        '7'
    } else if v == 8 {
        '8'
    } else {
        '9'
    }
}

/// The canonical `YYYY-MM-DD HH:MM:SS` rendering of a date-time.
pub open spec fn str_of_date(d: DateTime) -> Seq<char> {
    seq![
        digit_char(d.year as int / 1000),
        digit_char((d.year as int / 100) % 10),
        digit_char((d.year as int / 10) % 10),
        digit_char(d.year as int % 10),
        '-',
        digit_char(d.month as int / 10),
        digit_char(d.month as int % 10),
        '-',
        digit_char(d.day as int / 10),
        digit_char(d.day as int % 10),
        ' ',
        digit_char(d.hour as int / 10),
        digit_char(d.hour as int % 10),
        ':',
        digit_char(d.minute as int / 10),
        digit_char(d.minute as int % 10),
        ':',
        digit_char(d.second as int / 10),
        digit_char(d.second as int % 10),
    ]
}

/// A decimal number is recovered from its four digits.
proof fn lemma_four_digits(y: int)
    requires
        0 <= y <= 9999,
    ensures
        0 <= y / 1000 <= 9,
        0 <= (y / 100) % 10 <= 9,
        0 <= (y / 10) % 10 <= 9,
        0 <= y % 10 <= 9,
        1000 * (y / 1000) + 100 * ((y / 100) % 10) + 10 * ((y / 10) % 10) + y % 10 == y,
{
    vstd::arithmetic::div_mod::lemma_div_denominator(y, 10, 10);
    vstd::arithmetic::div_mod::lemma_div_denominator(y, 100, 10);
    assert(y == 10 * (y / 10) + y % 10);
    assert(y / 10 == 10 * ((y / 10) / 10) + (y / 10) % 10);
    assert(y / 100 == 10 * ((y / 100) / 10) + (y / 100) % 10);
    assert((y / 10) / 10 == y / 100);
    assert((y / 100) / 10 == y / 1000);
}

/// A decimal number is recovered from its two digits.
proof fn lemma_two_digits(v: int)
    requires
        0 <= v <= 99,
    ensures
        0 <= v / 10 <= 9,
        0 <= v % 10 <= 9,
        10 * (v / 10) + v % 10 == v,
{
    assert(v == 10 * (v / 10) + v % 10);
}

/// Printing a digit yields a digit character that reads back as itself.
proof fn lemma_digit_char_val(v: int)
    requires
        0 <= v <= 9,
    ensures
        is_digit(digit_char(v)),
        digit_val(digit_char(v)) == v,
{
}

/// Formatting then parsing gives back the same date-time: the canonical
/// rendering of a valid date-time is well-formed and denotes it.
pub proof fn lemma_format_parse_round_trip(d: DateTime)
    requires
        valid_date(d),
    ensures
        date_str_wf(str_of_date(d)),
        date_of_str(str_of_date(d)) == d,
{
    let s = str_of_date(d);
    lemma_four_digits(d.year as int);
    lemma_two_digits(d.month as int);
    lemma_two_digits(d.day as int);
    lemma_two_digits(d.hour as int);
    lemma_two_digits(d.minute as int);
    lemma_two_digits(d.second as int);
    lemma_digit_char_val(d.year as int / 1000);
    lemma_digit_char_val((d.year as int / 100) % 10);
    lemma_digit_char_val((d.year as int / 10) % 10);
    lemma_digit_char_val(d.year as int % 10);
    lemma_digit_char_val(d.month as int / 10);
    lemma_digit_char_val(d.month as int % 10);
    lemma_digit_char_val(d.day as int / 10);
    lemma_digit_char_val(d.day as int % 10);
    lemma_digit_char_val(d.hour as int / 10);
    lemma_digit_char_val(d.hour as int % 10);
    lemma_digit_char_val(d.minute as int / 10);
    lemma_digit_char_val(d.minute as int % 10);
    lemma_digit_char_val(d.second as int / 10);
    lemma_digit_char_val(d.second as int % 10);
    assert(year_val(s) == d.year);
    assert(two_digit_val(s, 5) == d.month);
    assert(two_digit_val(s, 8) == d.day);
    assert(two_digit_val(s, 11) == d.hour);
    assert(two_digit_val(s, 14) == d.minute);
    assert(two_digit_val(s, 17) == d.second);
}

/// Appends one decimal digit to `out`.
fn push_digit(out: &mut String, v: u32)
    requires
        v <= 9,
    ensures
        final(out)@ == old(out)@ + seq![digit_char(v as int)],
{
    let s: &'static str = match v {
        0 => "0",
        1 => "1",
        2 => "2",
        3 => "3",
        4 => "4",
        5 => "5",
        6 => "6",
        7 => "7",
        8 => "8",
        _ => "9",
    };
    proof {
        reveal_strlit("0");
        reveal_strlit("1");
        reveal_strlit("2");
        reveal_strlit("3");
        reveal_strlit("4");
        reveal_strlit("5");
        reveal_strlit("6");
        reveal_strlit("7");
        reveal_strlit("8");
        reveal_strlit("9");
    }
    assert(s@ =~= seq![digit_char(v as int)]);
    out.append(s);
}

/// Appends the two decimal digits of a number below one hundred.
fn push_two_digits(out: &mut String, v: u32)
    requires
        v <= 99,
    ensures
        final(out)@ == old(out)@ + seq![digit_char(v as int / 10), digit_char(v as int % 10)],
{
    proof {
        lemma_two_digits(v as int);
    }
    push_digit(out, v / 10);
    push_digit(out, v % 10);
    assert(out@ =~= old(out)@ + seq![digit_char(v as int / 10), digit_char(v as int % 10)]);
}

/// Renders a valid date-time in the fixed pattern `YYYY-MM-DD HH:MM:SS`.
/// The result is exactly the canonical rendering, so parsing it gives the
/// date-time back.
pub fn format_date_time(d: &DateTime) -> (r: String)
    requires
        valid_date(*d),
    ensures
        r@ == str_of_date(*d),
        date_str_wf(r@),
        date_of_str(r@) == *d,
{
    proof {
        lemma_four_digits(d.year as int);
        reveal_strlit("-");
        reveal_strlit(" ");
        reveal_strlit(":");
    }
    let mut out = String::new();
    push_digit(&mut out, d.year / 1000);
    push_digit(&mut out, (d.year / 100) % 10);
    push_digit(&mut out, (d.year / 10) % 10);
    push_digit(&mut out, d.year % 10);
    out.append("-");
    push_two_digits(&mut out, d.month);
    out.append("-");
    push_two_digits(&mut out, d.day);
    out.append(" ");
    push_two_digits(&mut out, d.hour);
    out.append(":");
    push_two_digits(&mut out, d.minute);
    out.append(":");
    push_two_digits(&mut out, d.second);
    assert(out@ =~= str_of_date(*d));
    proof {
        lemma_format_parse_round_trip(*d);
    }
    out
}

} // verus!
