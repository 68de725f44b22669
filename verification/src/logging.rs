//! Which log level the settings ask for.

use std::str::FromStr;
use vstd::prelude::*;
use crate::settings::Logging;

verus! {

/// The most verbose level that is logged.
#[derive(Clone, Copy, Debug, PartialEq, Eq, Structural)]
pub enum LogLevel {
    Off,
    Error,
    Warn,
    Info,
    Debug,
    Trace,
}

/// `c` with an ASCII capital turned into its small letter.
pub open spec fn fold_case(c: char) -> char {
    if 0x41 <= c as u32 <= 0x5A {
        (c as u32 + 0x20) as char
    } else {
        c
    }
}

/// The two texts are the same but for the case of ASCII letters.
pub open spec fn same_ignoring_case(a: Seq<char>, b: Seq<char>) -> bool {
    &&& a.len() == b.len()
    &&& forall|i: int| 0 <= i < a.len() ==> fold_case(#[trigger] a[i]) == fold_case(b[i])
}

/// The level that a name stands for: `off`, `error`, `warn`, `info`,
/// `debug` or `trace`, in any case of letters. `None` for any other text.
pub open spec fn level_named(name: Seq<char>) -> Option<LogLevel> {
    if same_ignoring_case(name, seq!['O', 'F', 'F']) {
        Some(LogLevel::Off)
    } else if same_ignoring_case(name, seq!['E', 'R', 'R', 'O', 'R']) {
        Some(LogLevel::Error)
    } else if same_ignoring_case(name, seq!['W', 'A', 'R', 'N']) {
        Some(LogLevel::Warn)
    } else if same_ignoring_case(name, seq!['I', 'N', 'F', 'O']) {
        Some(LogLevel::Info)
    } else if same_ignoring_case(name, seq!['D', 'E', 'B', 'U', 'G']) {
        Some(LogLevel::Debug)
    } else if same_ignoring_case(name, seq!['T', 'R', 'A', 'C', 'E']) {
        Some(LogLevel::Trace)
    } else {
        None
    }
}

/// The level that the settings ask for: the one that they name, and `Info`
/// where they name none.
pub open spec fn level_asked(name: Seq<char>) -> LogLevel {
    match level_named(name) {
        Some(level) => level,
        None => LogLevel::Info,
    }
}

/// Reads a level name with `log::LevelFilter::from_str`, which goes through
/// the names `OFF`, `ERROR`, `WARN`, `INFO`, `DEBUG` and `TRACE` and takes
/// the first that equals the text but for ASCII case; it fails on any other
/// text. The contract says which level comes for which text.
#[verifier::external_body]
fn parse_level(name: &str) -> (level: Option<LogLevel>)
    ensures
        level == level_named(name@),
{
    match log::LevelFilter::from_str(name) {
        Ok(log::LevelFilter::Off) => Some(LogLevel::Off),
        Ok(log::LevelFilter::Error) => Some(LogLevel::Error),
        Ok(log::LevelFilter::Warn) => Some(LogLevel::Warn),
        Ok(log::LevelFilter::Info) => Some(LogLevel::Info),
        Ok(log::LevelFilter::Debug) => Some(LogLevel::Debug),
        Ok(log::LevelFilter::Trace) => Some(LogLevel::Trace),
        Err(_) => None,
    }
}

/// The level to log at. A level name that is none falls back to `Info`.
pub fn level_filter(logging: &Logging) -> (level: LogLevel)
    ensures
        level == level_asked(logging.level@),
{
    match parse_level(logging.level.as_str()) {
        Some(level) => level,
        None => LogLevel::Info,
    }
}

} // verus!
