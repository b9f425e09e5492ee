//! The rebase-driving state machine.
//!
//! The driver holds no mirror of git's own rebase state: it infers the phase
//! from the first line of each status query. A session starts the rebase,
//! then loops — query status; if the first line carries the clean-branch
//! marker the session is done, otherwise a commit is paused for editing, so
//! a date is obtained, the commit is amended, and the rebase advances. The
//! subprocess calls and the terminal belong to the caller; the driver
//! decides, and its well-formedness bounds the number of amendments by the
//! repository's commit count, failing loudly rather than spinning when the
//! marker is never recognised.

use vstd::prelude::*;

use crate::datetime::{valid_date, DateTime};
use crate::localtime::{committer_string_of, local_committer_string};
use vstd::string::StrSliceExecFns;

verus! {

/// Phase of the rewrite session.
#[derive(Clone, Copy, PartialEq, Eq, Structural, Debug)]
pub enum DriverState {
    /// No rebase has been started.
    NotStarted,
    /// The rebase runs; the next status query decides what to do.
    AwaitingCommit,
    /// A commit is paused for editing and awaits its replacement date.
    Amending,
    /// The paused commit was amended; the rebase must advance.
    Continuing,
    /// The status probe signalled a clean branch: the session is complete.
    Done,
    /// The amendment bound was exceeded or a date could not be rendered;
    /// the driver stops rather than spin.
    Failed,
}

/// The clean-branch marker `On branch` stands at position `i` of the line.
pub open spec fn marker_at(s: Seq<char>, i: int) -> bool {
    &&& 0 <= i
    &&& i + 9 <= s.len()
    &&& s[i] == 'O'
    &&& s[i + 1] == 'n'
    &&& s[i + 2] == ' '
    &&& s[i + 3] == 'b'
    &&& s[i + 4] == 'r'
    &&& s[i + 5] == 'a'
    &&& s[i + 6] == 'n'
    &&& s[i + 7] == 'c'
    &&& s[i + 8] == 'h'
}

/// A status line that signals a clean branch: it carries the marker
/// somewhere.
pub open spec fn is_clean_status_line(line: Seq<char>) -> bool {
    exists|i: int| marker_at(line, i)
}

/// The prefix of a text up to its first newline.
pub open spec fn first_line_spec(s: Seq<char>) -> Seq<char>
    decreases s.len(),
{
    if s.len() == 0 {
        s
    } else if s[0] == '\n' {
        Seq::empty()
    } else {
        seq![s[0]] + first_line_spec(s.drop_first())
    }
}

/// A status output whose first line signals a clean branch.
pub open spec fn status_clean(out: Seq<char>) -> bool {
    is_clean_status_line(first_line_spec(out))
}

/// The first line is the prefix up to the first newline position.
proof fn lemma_first_line(s: Seq<char>, k: int)
    requires
        0 <= k <= s.len(),
        forall|i: int| 0 <= i < k ==> s[i] != '\n',
        k < s.len() ==> s[k] == '\n',
    ensures
        first_line_spec(s) == s.subrange(0, k),
    decreases k,
{
    if k == 0 {
        if s.len() == 0 {
            assert(s.subrange(0, 0) =~= s);
        } else {
            assert(s.subrange(0, 0) =~= Seq::<char>::empty());
        }
    } else {
        lemma_first_line(s.drop_first(), k - 1);
        assert(seq![s[0]] + s.drop_first().subrange(0, k - 1) =~= s.subrange(0, k));
    }
}

/// Returns the first line of a text.
pub fn first_line(s: &str) -> (r: &str)
    ensures
        r@ == first_line_spec(s@),
{
    let n = s.unicode_len();
    let mut k: usize = 0;
    while k < n && s.get_char(k) != '\n'
        invariant
            0 <= k <= n,
            n == s@.len(),
            forall|i: int| 0 <= i < k ==> s@[i] != '\n',
        decreases n - k,
    {
        k = k + 1;
    }
    proof {
        lemma_first_line(s@, k as int);
    }
    s.substring_char(0, k)
}

/// True when the marker stands at position `i`.
fn marker_at_exec(s: &str, i: usize) -> (r: bool)
    requires
        i + 9 <= s@.len(),
        s@.len() <= usize::MAX,
    ensures
        r == marker_at(s@, i as int),
{
    s.get_char(i) == 'O' && s.get_char(i + 1) == 'n' && s.get_char(i + 2) == ' ' && s.get_char(
        i + 3,
    ) == 'b' && s.get_char(i + 4) == 'r' && s.get_char(i + 5) == 'a' && s.get_char(i + 6) == 'n'
        && s.get_char(i + 7) == 'c' && s.get_char(i + 8) == 'h'
}

/// Decides whether a status line signals a clean branch, by searching it
/// for the marker.
pub fn line_signals_clean(line: &str) -> (r: bool)
    ensures
        r == is_clean_status_line(line@),
{
    let n = line.unicode_len();
    if n < 9 {
        return false;
    }
    let mut i: usize = 0;
    while i <= n - 9
        invariant
            0 <= i <= n - 9 + 1,
            9 <= n == line@.len(),
            forall|k: int| 0 <= k < i ==> !marker_at(line@, k),
        decreases n - i,
    {
        if marker_at_exec(line, i) {
            return true;
        }
        i = i + 1;
    }
    false
}

/// Decides whether the first line of a status output signals a clean
/// branch.
pub fn status_signals_clean(out: &str) -> (r: bool)
    ensures
        r == status_clean(out@),
{
    line_signals_clean(first_line(out))
}

/// The rebase-driving state machine. `commit_count` is the repository's
/// total commit count at read time; `amended` counts the commits amended so
/// far and never exceeds the bound.
pub struct RebaseDriver {
    pub state: DriverState,
    pub commit_count: usize,
    pub amended: usize,
}

impl RebaseDriver {
    /// The driver's invariant: progress stays within the commit count, a
    /// paused commit is only awaited while the bound leaves room, and no
    /// commit is amended before the rebase starts.
    pub open spec fn wf(self) -> bool {
        &&& self.amended <= self.commit_count
        &&& self.state is Amending ==> self.amended < self.commit_count
        &&& self.state is NotStarted ==> self.amended == 0
    }

    /// A fresh driver for a repository of `commit_count` commits.
    pub fn new(commit_count: usize) -> (r: RebaseDriver)
        ensures
            r.wf(),
            r.state is NotStarted,
            r.commit_count == commit_count,
            r.amended == 0,
    {
        RebaseDriver { state: DriverState::NotStarted, commit_count, amended: 0 }
    }

    /// Enters the session: the caller has just issued the interactive
    /// rebase start command, rooted at the first commit.
    pub fn start(&mut self)
        requires
            old(self).wf(),
            old(self).state is NotStarted,
        ensures
            final(self).wf(),
            final(self).state is AwaitingCommit,
            final(self).commit_count == old(self).commit_count,
            final(self).amended == 0,
    {
        self.state = DriverState::AwaitingCommit;
    }

    /// Consumes one status query. The session is done exactly when the
    /// first line of the output signals a clean branch; otherwise a commit
    /// is paused for editing, and the driver turns to amending it — unless
    /// that would exceed the commit count, in which case the marker is
    /// evidently not being recognised and the driver fails loudly.
    pub fn observe_status(&mut self, status_output: &str) -> (st: DriverState)
        requires
            old(self).wf(),
            old(self).state is AwaitingCommit,
        ensures
            final(self).wf(),
            final(self).commit_count == old(self).commit_count,
            final(self).amended == old(self).amended,
            st == final(self).state,
            final(self).state is Done <==> status_clean(status_output@),
            !status_clean(status_output@) && old(self).amended < old(self).commit_count
                ==> final(self).state is Amending,
            !status_clean(status_output@) && old(self).amended >= old(self).commit_count
                ==> final(self).state is Failed,
    {
        if status_signals_clean(status_output) {
            self.state = DriverState::Done;
        } else if self.amended < self.commit_count {
            self.state = DriverState::Amending;
        } else {
            self.state = DriverState::Failed;
        }
        self.state
    }

    /// Takes the operator's replacement date for the paused commit and
    /// renders it for git's amend command in the local time zone: a
    /// successful result is exactly the rendering the date's fields
    /// determine. On success the amendment is counted and the rebase must
    /// advance; when the instant cannot be rendered in the local zone the
    /// driver fails rather than amend with a wrong date.
    pub fn supply_date(&mut self, d: &DateTime) -> (r: Option<String>)
        requires
            old(self).wf(),
            old(self).state is Amending,
            valid_date(*d),
        ensures
            final(self).wf(),
            final(self).commit_count == old(self).commit_count,
            r matches Some(s) ==> {
                &&& final(self).state is Continuing
                &&& final(self).amended == old(self).amended + 1
                &&& s@ == committer_string_of(
                    d.year as int,
                    d.month as int,
                    d.day as int,
                    d.hour as int,
                    d.minute as int,
                    d.second as int,
                )
                &&& s@.len() > 0
            },
            r is None ==> final(self).state is Failed && final(self).amended == old(
                self,
            ).amended,
    {
        match local_committer_string(d) {
            Some(s) => {
                self.amended = self.amended + 1;
                self.state = DriverState::Continuing;
                Some(s)
            },
            None => {
                self.state = DriverState::Failed;
                None
            },
        }
    }

    /// Returns to awaiting the next status query: the caller has just
    /// issued the rebase continue command.
    pub fn advance(&mut self)
        requires
            old(self).wf(),
            old(self).state is Continuing,
        ensures
            final(self).wf(),
            final(self).state is AwaitingCommit,
            final(self).commit_count == old(self).commit_count,
            final(self).amended == old(self).amended,
    {
        self.state = DriverState::AwaitingCommit;
    }
}

} // verus!
