//! Parsing of commit-log output into an oldest-first commit sequence.
//!
//! The log listing carries one commit per line: a fixed-width short hash, a
//! space, and the committer date, possibly wrapped in double quotes. Git
//! lists commits newest-first; the parser reverses them so the sequence
//! matches the order an interactive rebase rooted at the first commit
//! visits them. Any unparsable line fails the whole read.

use vstd::prelude::*;

use crate::datetime::{
    date_le, date_of_str, date_str_wf, lemma_date_le_trans, parse_date_time, valid_date, DateTime,
};
use vstd::string::StrSliceExecFns;

verus! {

/// Width of the short commit hash at the head of each log line.
pub const HASH_LEN: usize = 7;

/// A commit as the history reader captures it: its short hash and its
/// committer date. The hash goes stale once the commit is amended; the
/// driver only ever tracks ordinal progress, never re-resolves by hash.
#[derive(Debug)]
pub struct Commit {
    pub hash: String,
    pub timestamp: DateTime,
}

/// Failure of a history read.
#[derive(Clone, Copy, PartialEq, Eq, Structural, Debug)]
pub enum HistoryError {
    /// The status probe showed the directory is not a git repository.
    NotAGitRepository,
    /// A line of the log listing did not have the expected form.
    UnparsableLogOutput,
}

/// The lines of a text: segments between newlines, a trailing newline
/// acting as a terminator rather than opening an empty final line.
pub open spec fn lines_of(s: Seq<char>) -> Seq<Seq<char>>
    decreases s.len(),
{
    if s.len() == 0 {
        Seq::empty()
    } else if s[0] == '\n' {
        seq![Seq::<char>::empty()] + lines_of(s.drop_first())
    } else {
        let rest = lines_of(s.drop_first());
        if rest.len() == 0 {
            seq![seq![s[0]]]
        } else {
            seq![seq![s[0]] + rest[0]] + rest.drop_first()
        }
    }
}

/// Cutting at the first newline peels off the first line.
proof fn lemma_lines_step(s: Seq<char>, k: int)
    requires
        0 <= k <= s.len(),
        forall|i: int| 0 <= i < k ==> s[i] != '\n',
        k < s.len() ==> s[k] == '\n',
    ensures
        k < s.len() ==> lines_of(s) == seq![s.subrange(0, k)] + lines_of(
            s.subrange(k + 1, s.len() as int),
        ),
        k == s.len() && s.len() > 0 ==> lines_of(s) == seq![s],
    decreases k,
{
    if s.len() == 0 {
    } else if k == 0 {
        if k < s.len() {
            assert(s.subrange(0, 0) =~= Seq::<char>::empty());
            assert(s.subrange(1, s.len() as int) =~= s.drop_first());
        }
    } else {
        let d = s.drop_first();
        lemma_lines_step(d, k - 1);
        if k < s.len() {
            assert(d.subrange(0, k - 1) =~= s.subrange(1, k));
            assert(d.subrange(k, d.len() as int) =~= s.subrange(k + 1, s.len() as int));
            let rest = lines_of(d);
            assert(rest == seq![s.subrange(1, k)] + lines_of(s.subrange(k + 1, s.len() as int)));
            assert(rest.len() > 0);
            assert(seq![s[0]] + rest[0] =~= s.subrange(0, k));
            assert(rest.drop_first() =~= lines_of(s.subrange(k + 1, s.len() as int)));
        } else {
            if d.len() == 0 {
                reveal_with_fuel(lines_of, 2);
                assert(lines_of(s) == seq![seq![s[0]]]);
                assert(seq![s[0]] =~= s);
            } else {
                let rest = lines_of(d);
                assert(rest == seq![d]);
                assert(seq![s[0]] + d =~= s);
                assert(rest.drop_first() =~= Seq::<Seq<char>>::empty());
                assert(lines_of(s) == seq![seq![s[0]] + d] + rest.drop_first());
                assert(seq![s] + Seq::<Seq<char>>::empty() =~= seq![s]);
            }
        }
    }
}

/// The views of a vector of strings.
pub open spec fn views_of(v: Seq<String>) -> Seq<Seq<char>> {
    v.map_values(|x: String| x@)
}

/// Splits a text into its lines.
fn split_lines(s: &str) -> (r: Vec<String>)
    ensures
        views_of(r@) == lines_of(s@),
{
    let n = s.unicode_len();
    let mut acc: Vec<String> = Vec::new();
    let mut start: usize = 0;
    let mut i: usize = 0;
    proof {
        assert(views_of(acc@) =~= Seq::<Seq<char>>::empty());
        assert(s@.subrange(0, n as int) =~= s@);
    }
    while i < n
        invariant
            0 <= start <= i <= n,
            n == s@.len(),
            forall|j: int| start <= j < i ==> s@[j] != '\n',
            lines_of(s@) == views_of(acc@) + lines_of(s@.subrange(start as int, n as int)),
        decreases n - i,
    {
        if s.get_char(i) == '\n' {
            let piece = s.substring_char(start, i).to_owned();
            proof {
                let t = s@.subrange(start as int, n as int);
                lemma_lines_step(t, i - start);
                assert(t.subrange(0, i - start) =~= s@.subrange(start as int, i as int));
                assert(t.subrange(i - start + 1, t.len() as int) =~= s@.subrange(
                    i + 1,
                    n as int,
                ));
                assert(views_of(acc@.push(piece)) =~= views_of(acc@).push(piece@));
            }
            acc.push(piece);
            start = i + 1;
        }
        i = i + 1;
    }
    if start < n {
        let piece = s.substring_char(start, n).to_owned();
        proof {
            let t = s@.subrange(start as int, n as int);
            lemma_lines_step(t, t.len() as int);
            assert(views_of(acc@.push(piece)) =~= views_of(acc@).push(piece@));
            assert(views_of(acc@).push(t) =~= views_of(acc@) + seq![t]);
        }
        acc.push(piece);
    } else {
        proof {
            assert(s@.subrange(start as int, n as int) =~= Seq::<char>::empty());
            assert(views_of(acc@) + Seq::<Seq<char>>::empty() =~= views_of(acc@));
        }
    }
    acc
}

/// A lowercase hexadecimal digit, as git prints short hashes.
pub open spec fn is_hex_digit(c: char) -> bool {
    ('0' as u32 <= c as u32 <= '9' as u32) || ('a' as u32 <= c as u32 <= 'f' as u32)
}

/// The date field of a line with one level of surrounding double quotes
/// removed.
pub open spec fn strip_quotes(s: Seq<char>) -> Seq<char> {
    if s.len() >= 2 && s[0] == '"' && s[s.len() - 1] == '"' {
        s.subrange(1, s.len() - 1)
    } else {
        s
    }
}

/// A well-formed log line: a fixed-width lowercase-hex hash, a space, and a
/// well-formed date field, possibly quoted.
pub open spec fn log_line_wf(s: Seq<char>) -> bool {
    &&& s.len() > HASH_LEN
    &&& forall|i: int| 0 <= i < HASH_LEN ==> is_hex_digit(s[i])
    &&& s[HASH_LEN as int] == ' '
    &&& date_str_wf(strip_quotes(s.subrange(HASH_LEN as int + 1, s.len() as int)))
}

/// The hash a well-formed log line carries.
pub open spec fn hash_of_line(s: Seq<char>) -> Seq<char> {
    s.subrange(0, HASH_LEN as int)
}

/// The date a well-formed log line carries.
pub open spec fn date_of_line(s: Seq<char>) -> DateTime {
    date_of_str(strip_quotes(s.subrange(HASH_LEN as int + 1, s.len() as int)))
}

/// True when the character at position `i` is a lowercase hex digit.
fn hex_at(s: &str, i: usize) -> (r: bool)
    requires
        i < s@.len(),
    ensures
        r == is_hex_digit(s@[i as int]),
{
    let u = s.get_char(i) as u32;
    (48 <= u && u <= 57) || (97 <= u && u <= 102)
}

/// Parses one log line into a commit. Succeeds exactly on well-formed
/// lines and returns the hash and date the line carries.
pub fn parse_log_line(line: &str) -> (r: Option<Commit>)
    ensures
        r is Some <==> log_line_wf(line@),
        r matches Some(c) ==> {
            &&& c.hash@ == hash_of_line(line@)
            &&& c.timestamp == date_of_line(line@)
            &&& valid_date(c.timestamp)
        },
{
    let n = line.unicode_len();
    if n <= HASH_LEN {
        return None;
    }
    let mut i: usize = 0;
    while i < HASH_LEN
        invariant
            0 <= i <= HASH_LEN,
            n == line@.len(),
            n > HASH_LEN,
            forall|j: int| 0 <= j < i ==> is_hex_digit(line@[j]),
        decreases HASH_LEN - i,
    {
        if !hex_at(line, i) {
            return None;
        }
        i = i + 1;
    }
    if !(line.get_char(HASH_LEN) == ' ') {
        return None;
    }
    let field = line.substring_char(HASH_LEN + 1, n);
    let m = field.unicode_len();
    let stripped: &str = if m >= 2 && field.get_char(0) == '"' && field.get_char(m - 1) == '"' {
        field.substring_char(1, m - 1)
    } else {
        field
    };
    assert(stripped@ == strip_quotes(line@.subrange(HASH_LEN as int + 1, line@.len() as int)));
    let timestamp = match parse_date_time(stripped) {
        Some(d) => d,
        None => return None,
    };
    let hash = line.substring_char(0, HASH_LEN);
    Some(Commit { hash: hash.to_owned(), timestamp })
}

/// Every line of the listing is well-formed.
pub open spec fn log_wf(out: Seq<char>) -> bool {
    forall|i: int| 0 <= i < lines_of(out).len() ==> log_line_wf(lines_of(out)[i])
}

/// In a listing whose lines run newest-first, any earlier line carries a
/// date no earlier than any later line's.
proof fn lemma_desc_pairs(out: Seq<char>, k1: int, k2: int)
    requires
        forall|k: int|
            0 <= k < lines_of(out).len() - 1 ==> date_le(
                date_of_line(#[trigger] lines_of(out)[k + 1]),
                date_of_line(lines_of(out)[k]),
            ),
        0 <= k1 <= k2 < lines_of(out).len(),
    ensures
        date_le(date_of_line(lines_of(out)[k2]), date_of_line(lines_of(out)[k1])),
    decreases k2 - k1,
{
    if k1 < k2 {
        lemma_desc_pairs(out, k1, k2 - 1);
        assert(date_le(
            date_of_line(lines_of(out)[(k2 - 1) + 1]),
            date_of_line(lines_of(out)[k2 - 1]),
        ));
        lemma_date_le_trans(
            date_of_line(lines_of(out)[k2]),
            date_of_line(lines_of(out)[k2 - 1]),
            date_of_line(lines_of(out)[k1]),
        );
    }
}

/// A listing whose lines run newest-first reads back in ascending
/// chronological order: the reader takes its entry `i` from line
/// `N - 1 - i`, so for `i <= j` entry `i` is no later than entry `j`.
pub proof fn lemma_reversed_read_ascending(out: Seq<char>)
    requires
        forall|k: int|
            0 <= k < lines_of(out).len() - 1 ==> date_le(
                date_of_line(#[trigger] lines_of(out)[k + 1]),
                date_of_line(lines_of(out)[k]),
            ),
    ensures
        forall|i: int, j: int|
            0 <= i <= j < lines_of(out).len() ==> date_le(
                date_of_line(#[trigger] lines_of(out)[lines_of(out).len() - 1 - i]),
                date_of_line(#[trigger] lines_of(out)[lines_of(out).len() - 1 - j]),
            ),
{
    let n = lines_of(out).len() as int;
    assert forall|i: int, j: int| 0 <= i <= j < n implies date_le(
        date_of_line(#[trigger] lines_of(out)[n - 1 - i]),
        date_of_line(#[trigger] lines_of(out)[n - 1 - j]),
    ) by {
        lemma_desc_pairs(out, n - 1 - j, n - 1 - i);
    }
}

/// Parses a whole newest-first log listing into an oldest-first commit
/// sequence. Succeeds exactly when every line is well-formed; the result
/// then has one commit per line, entry `i` taken from line `N - 1 - i`, so
/// the last entry is the listing's first line — the branch tip.
pub fn parse_log(output: &str) -> (r: Result<Vec<Commit>, HistoryError>)
    ensures
        r is Ok <==> log_wf(output@),
        r matches Ok(v) ==> {
            let ls = lines_of(output@);
            &&& v@.len() == ls.len()
            &&& forall|i: int|
                0 <= i < v@.len() ==> {
                    &&& v@[i].hash@ == hash_of_line(ls[ls.len() - 1 - i])
                    &&& v@[i].timestamp == date_of_line(ls[ls.len() - 1 - i])
                    &&& valid_date(v@[i].timestamp)
                }
        },
        r matches Err(e) ==> e == HistoryError::UnparsableLogOutput,
{
    let lines = split_lines(output);
    let n = lines.len();
    assert(views_of(lines@).len() == n);
    let mut commits: Vec<Commit> = Vec::new();
    let mut taken: usize = 0;
    while taken < n
        invariant
            0 <= taken <= n,
            n == lines@.len(),
            views_of(lines@) == lines_of(output@),
            commits@.len() == taken,
            forall|i: int|
                0 <= i < taken ==> {
                    &&& commits@[i].hash@ == hash_of_line(lines@[n - 1 - i]@)
                    &&& commits@[i].timestamp == date_of_line(lines@[n - 1 - i]@)
                    &&& valid_date(commits@[i].timestamp)
                    &&& log_line_wf(lines@[n - 1 - i]@)
                },
        decreases n - taken,
    {
        let idx = n - 1 - taken;
        let line: &String = &lines[idx];
        match parse_log_line(line.as_str()) {
            Some(c) => {
                commits.push(c);
                taken = taken + 1;
            },
            None => {
                assert(!log_line_wf(lines_of(output@)[idx as int]));
                return Err(HistoryError::UnparsableLogOutput);
            },
        }
    }
    proof {
        let ls = lines_of(output@);
        assert forall|i: int| 0 <= i < n implies log_line_wf(#[trigger] ls[i]) by {
            let j = n - 1 - i;
            assert(commits@[j].hash@ == hash_of_line(lines@[n - 1 - j]@));
            assert(ls[i] == lines@[i]@);
        }
        assert forall|i: int|
            0 <= i < commits@.len() implies {
            &&& #[trigger] commits@[i].hash@ == hash_of_line(ls[ls.len() - 1 - i])
            &&& commits@[i].timestamp == date_of_line(ls[ls.len() - 1 - i])
            &&& valid_date(commits@[i].timestamp)
        } by {
            assert(ls[n - 1 - i] == lines@[n - 1 - i]@);
        }
    }
    Ok(commits)
}

} // verus!
