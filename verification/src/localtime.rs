//! Rendering an instant in the machine's local time zone, through chrono.

use vstd::prelude::*;

use crate::datetime::DateTime;
use chrono::TimeZone;

verus! {

/// The committer-date rendering of a calendar instant. When the rendering
/// succeeds it is a function of the fields alone: the `%c` pattern prints
/// the wall-clock fields as given, with fixed English names and no offset,
/// so the local zone decides only whether the instant exists, never the
/// text.
pub uninterp spec fn committer_string_of(
    year: int,
    month: int,
    day: int,
    hour: int,
    minute: int,
    second: int,
) -> Seq<char>;

/// Relies on chrono: `NaiveDate::from_ymd_opt`, `NaiveDate::and_hms_opt`,
/// `TimeZone::from_local_datetime` on `Local`, and formatting with the `%c`
/// pattern. Renders the instant in the machine's local time zone in git's
/// expected committer-date form; `None` when chrono rejects the fields or
/// the instant does not exist, or is ambiguous, in that zone. A successful
/// rendering is the non-empty `committer_string_of` the fields alone
/// determine; only success itself depends on the zone.
#[verifier::external_body]
pub(crate) fn local_committer_string(d: &DateTime) -> (r: Option<String>)
    ensures
        r matches Some(s) ==> {
            &&& s@ == committer_string_of(
                d.year as int,
                d.month as int,
                d.day as int,
                d.hour as int,
                d.minute as int,
                d.second as int,
            )
            &&& s@.len() > 0
        },
{
    let nd = match chrono::NaiveDate::from_ymd_opt(d.year as i32, d.month, d.day) {
        Some(x) => x,
        None => return None,
    };
    let ndt = match nd.and_hms_opt(d.hour, d.minute, d.second) {
        Some(x) => x,
        None => return None,
    };
    match chrono::Local.from_local_datetime(&ndt) {
        chrono::LocalResult::Single(t) => Some(format!("{}", t.format("%c"))),
        _ => None,
    }
}

} // verus!
