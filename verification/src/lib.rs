//! Verified core of a git commit-date rewriting tool.
//!
//! The library holds the logic that can be checked: parsing and formatting
//! of operator-supplied timestamps, parsing of commit-log output into an
//! oldest-first commit sequence, the retrying date prompt over a stream of
//! input lines, and the state machine that drives an interactive rebase.
//! Subprocess invocation and terminal I/O live outside the library.

use vstd::prelude::*;

pub mod datetime;
pub mod driver;
pub mod history;
pub mod localtime;
pub mod prompt;

verus! {

/// Configuration taken from the command line: the path of the git working
/// tree to rewrite.
pub struct Config {
    pub directory: String,
}

impl Config {
    /// Builds a `Config` from the raw argument vector. The first argument is
    /// the program name; the second is the repository path. Fails exactly
    /// when fewer than two arguments are present.
    pub fn new(args: &[String]) -> (r: Result<Config, &'static str>)
        ensures
            r is Ok <==> args@.len() >= 2,
            r matches Ok(c) ==> c.directory@ == args@[1]@,
            r matches Err(e) ==> e@ == "Not enough arguments"@,
    {
        if args.len() < 2 {
            return Err("Not enough arguments");
        }
        Ok(Config { directory: args[1].clone() })
    }
}

} // verus!
