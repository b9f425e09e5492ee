//! The operator-facing date prompt, modelled over a stream of input lines.
//!
//! One attempt trims a line and parses it with the fixed pattern. The
//! retrying reader consumes lines until one parses, and reports how many
//! lines it consumed; it accepts nothing else and skips nothing.

use vstd::prelude::*;

use crate::datetime::{date_of_str, date_str_wf, parse_date_time, valid_date, DateTime};
use vstd::string::StrSliceExecFns;

verus! {

/// Whitespace the prompt ignores at either end of a line.
pub open spec fn is_ws(c: char) -> bool {
    c == ' ' || c == '\t' || c == '\n' || c == '\r'
}

/// The sequence with its leading whitespace removed.
pub open spec fn drop_leading_ws(s: Seq<char>) -> Seq<char>
    decreases s.len(),
{
    if s.len() > 0 && is_ws(s[0]) {
        drop_leading_ws(s.drop_first())
    } else {
        s
    }
}

/// The sequence with its trailing whitespace removed.
pub open spec fn drop_trailing_ws(s: Seq<char>) -> Seq<char>
    decreases s.len(),
{
    if s.len() > 0 && is_ws(s[s.len() - 1]) {
        drop_trailing_ws(s.drop_last())
    } else {
        s
    }
}

/// The sequence with whitespace removed from both ends.
pub open spec fn trim_ws_spec(s: Seq<char>) -> Seq<char> {
    drop_trailing_ws(drop_leading_ws(s))
}

/// Removing leading whitespace is cutting at the first non-whitespace
/// position.
proof fn lemma_drop_leading(s: Seq<char>, lo: int)
    requires
        0 <= lo <= s.len(),
        forall|i: int| 0 <= i < lo ==> is_ws(s[i]),
        lo < s.len() ==> !is_ws(s[lo]),
    ensures
        drop_leading_ws(s) == s.subrange(lo, s.len() as int),
    decreases lo,
{
    if lo == 0 {
        assert(s.subrange(0, s.len() as int) =~= s);
    } else {
        lemma_drop_leading(s.drop_first(), lo - 1);
        assert(s.drop_first().subrange(lo - 1, s.drop_first().len() as int) =~= s.subrange(
            lo,
            s.len() as int,
        ));
    }
}

/// Removing trailing whitespace is cutting after the last non-whitespace
/// position.
proof fn lemma_drop_trailing(t: Seq<char>, k: int)
    requires
        0 <= k <= t.len(),
        forall|i: int| k <= i < t.len() ==> is_ws(t[i]),
        k > 0 ==> !is_ws(t[k - 1]),
    ensures
        drop_trailing_ws(t) == t.subrange(0, k),
    decreases t.len(),
{
    if k == t.len() {
        assert(t.subrange(0, k) =~= t);
    } else {
        assert(is_ws(t[t.len() - 1]));
        lemma_drop_trailing(t.drop_last(), k);
        assert(t.drop_last().subrange(0, k) =~= t.subrange(0, k));
    }
}

/// True when the character at position `i` is prompt whitespace.
fn ws_at(s: &str, i: usize) -> (r: bool)
    requires
        i < s@.len(),
    ensures
        r == is_ws(s@[i as int]),
{
    let c = s.get_char(i);
    c == ' ' || c == '\t' || c == '\n' || c == '\r'
}

/// Removes whitespace from both ends of a line.
pub fn trim_ws(s: &str) -> (r: &str)
    ensures
        r@ == trim_ws_spec(s@),
{
    let n = s.unicode_len();
    let mut lo: usize = 0;
    while lo < n && ws_at(s, lo)
        invariant
            0 <= lo <= n,
            n == s@.len(),
            forall|i: int| 0 <= i < lo ==> is_ws(s@[i]),
        decreases n - lo,
    {
        lo = lo + 1;
    }
    let mut hi: usize = n;
    while hi > lo && ws_at(s, hi - 1)
        invariant
            lo <= hi <= n,
            n == s@.len(),
            forall|i: int| hi <= i < n ==> is_ws(s@[i]),
        decreases hi,
    {
        hi = hi - 1;
    }
    proof {
        lemma_drop_leading(s@, lo as int);
        let t = s@.subrange(lo as int, s@.len() as int);
        lemma_drop_trailing(t, hi - lo);
        assert(t.subrange(0, hi - lo) =~= s@.subrange(lo as int, hi as int));
    }
    s.substring_char(lo, hi)
}

/// A line the prompt accepts: after trimming it is a well-formed date
/// string.
pub open spec fn line_accepted(line: Seq<char>) -> bool {
    date_str_wf(trim_ws_spec(line))
}

/// The date-time an accepted line denotes.
pub open spec fn date_of_line(line: Seq<char>) -> DateTime {
    date_of_str(trim_ws_spec(line))
}

/// The prompt is deterministic: whether a line is accepted, and which
/// instant it denotes, are functions of the line alone. Together with the
/// contract of `prompt_attempt`, whose result is pinned to these two
/// functions, any two attempts on the same input return the same calendar
/// instant.
pub proof fn lemma_prompt_deterministic(l1: Seq<char>, l2: Seq<char>)
    requires
        l1 == l2,
    ensures
        line_accepted(l1) == line_accepted(l2),
        date_of_line(l1) == date_of_line(l2),
{
}

/// One attempt of the prompt: trim the line, then parse it. The result is a
/// function of the line alone, so repeated attempts on the same line agree.
pub fn prompt_attempt(line: &str) -> (r: Option<DateTime>)
    ensures
        r is Some <==> line_accepted(line@),
        r matches Some(d) ==> d == date_of_line(line@) && valid_date(d),
{
    let t = trim_ws(line);
    parse_date_time(t)
}

/// The retrying prompt over a stream of input lines: attempts each line in
/// turn and returns the first accepted date together with the number of
/// lines consumed. Rejected lines are only ever retried past, never
/// accepted and never skipped over a valid line; a stream with no valid
/// line never yields a date.
pub fn obtain_date(lines: &Vec<String>) -> (r: Option<(DateTime, usize)>)
    ensures
        r matches Some(p) ==> {
            &&& 1 <= p.1 <= lines@.len()
            &&& forall|i: int| 0 <= i < p.1 - 1 ==> !line_accepted(lines@[i]@)
            &&& line_accepted(lines@[p.1 - 1]@)
            &&& p.0 == date_of_line(lines@[p.1 - 1]@)
            &&& valid_date(p.0)
        },
        r is None <==> forall|i: int| 0 <= i < lines@.len() ==> !line_accepted(lines@[i]@),
{
    let n = lines.len();
    let mut j: usize = 0;
    while j < n
        invariant
            0 <= j <= n,
            n == lines@.len(),
            forall|i: int| 0 <= i < j ==> !line_accepted(lines@[i]@),
        decreases n - j,
    {
        let line: &String = &lines[j];
        match prompt_attempt(line.as_str()) {
            Some(d) => {
                return Some((d, j + 1));
            },
            None => {
                j = j + 1;
            },
        }
    }
    None
}

} // verus!
