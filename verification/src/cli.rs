//! Decisions behind the command line: which `--since` filter applies,
//! reading the daemon's pid file, and what a kill attempt means.

use vstd::prelude::*;
use vstd::string::*;
use crate::number::{parse_i64, parse_signed};
use crate::text::{chars_of, string_of_range, trim, trim_bounds};

verus! {

broadcast use vstd::string::group_string_axioms;

/// Where the start of the trace window comes from.
#[derive(Debug, Clone, PartialEq, Eq)]
pub enum SinceSource {
    /// `--since`: an RFC 3339 instant.
    Absolute(String),
    /// `--today`: midnight UTC of the current day.
    Today,
    /// `--ago`: a duration before now.
    Ago(String),
    /// No filter.
    Unset,
}

/// `--since` wins over `--today`, which wins over `--ago`.
pub fn since_source(since: Option<String>, today: bool, ago: Option<String>) -> (r: SinceSource)
    ensures
        match since {
            Some(s) => r == SinceSource::Absolute(s),
            None => if today {
                r == SinceSource::Today
            } else {
                match ago {
                    Some(a) => r == SinceSource::Ago(a),
                    None => r == SinceSource::Unset,
                }
            },
        },
{
    match since {
        Some(s) => SinceSource::Absolute(s),
        None => if today {
            SinceSource::Today
        } else {
            match ago {
                Some(a) => SinceSource::Ago(a),
                None => SinceSource::Unset,
            }
        },
    }
}

/// The pid a pid file's text names: the text without surrounding whitespace
/// is a decimal integer in the range of `i32`.
pub open spec fn pid_of(text: Seq<char>) -> Option<int> {
    match parse_signed(trim(text)) {
        Ok(n) => if i32::MIN <= n <= i32::MAX {
            Some(n)
        } else {
            None
        },
        Err(_) => None,
    }
}

/// Read the daemon's pid from the pid file's contents.
pub fn parse_pid(text: &str) -> (r: Option<i32>)
    ensures
        match r {
            Some(p) => pid_of(text@) == Some(p as int),
            None => pid_of(text@) is None,
        },
{
    let v = chars_of(text);
    let (a, b) = trim_bounds(v.as_slice());
    let t = string_of_range(v.as_slice(), a, b);
    match parse_i64(t.as_str()) {
        Ok(n) => if -2147483648 <= n && n <= 2147483647 {
            Some(n as i32)
        } else {
            None
        },
        Err(_) => None,
    }
}

/// What a `SIGTERM` sent to the daemon's pid came to.
#[derive(Debug, Clone, Copy, PartialEq, Eq, Structural)]
pub enum KillOutcome {
    /// The signal was delivered; the pid file is removed.
    Signalled,
    /// No such process: the pid file was stale; it and the socket are
    /// removed.
    Stale,
    /// The signal could not be sent; the command fails.
    Failed,
}

/// The meaning of `kill`'s return value `result` and, when it failed, the
/// error number `errno`, given the platform's "no such process" number.
pub fn kill_outcome(result: i32, errno: Option<i32>, no_such_process: i32) -> (r: KillOutcome)
    ensures
        result == 0 ==> r == KillOutcome::Signalled,
        result != 0 && errno == Some(no_such_process) ==> r == KillOutcome::Stale,
        result != 0 && errno != Some(no_such_process) ==> r == KillOutcome::Failed,
{
    if result == 0 {
        KillOutcome::Signalled
    } else {
        match errno {
            Some(e) => if e == no_such_process {
                KillOutcome::Stale
            } else {
                KillOutcome::Failed
            },
            None => KillOutcome::Failed,
        }
    }
}

} // verus!
