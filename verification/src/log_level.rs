//! The verbosity of the log, as the command line and the server's configuration name it.
use vstd::prelude::*;
use vstd::string::StringExecFns;

verus! {

/// How much the program logs.
#[derive(Debug, Clone, Copy, PartialEq, Eq, Structural)]
pub enum LogLevel {
    Error,
    Warn,
    Info,
    Debug,
    Trace,
}

/// What `str::to_lowercase` gives for the text.
pub uninterp spec fn spec_lowercase(s: Seq<char>) -> Seq<char>;

/// Lowercases text with `str::to_lowercase` (Unicode lowercasing); the result is named,
/// not described.
#[verifier::external_body]
fn to_lowercase(s: &str) -> (r: String)
    ensures
        r@ == spec_lowercase(s@),
{
    s.to_lowercase()
}

/// The level that lowercase text names, if any.
pub open spec fn spec_level_named(name: Seq<char>) -> Option<LogLevel> {
    if name == "error"@ {
        Some(LogLevel::Error)
    } else if name == "warn"@ {
        Some(LogLevel::Warn)
    } else if name == "info"@ {
        Some(LogLevel::Info)
    } else if name == "debug"@ {
        Some(LogLevel::Debug)
    } else if name == "trace"@ {
        Some(LogLevel::Trace)
    } else {
        None
    }
}

/// The level that a setting names, whatever its case: `error`, `warn`, `info`, `debug`
/// or `trace`; `Info` without a setting; nothing for any other text.
pub fn log_level_of(level: Option<&str>) -> (r: Option<LogLevel>)
    ensures
        r == match level {
            None => Some(LogLevel::Info),
            Some(s) => spec_level_named(spec_lowercase(s@)),
        },
{
    let name = match level {
        None => {
            return Some(LogLevel::Info);
        },
        Some(s) => to_lowercase(s),
    };
    let error = String::from_str("error");
    let warn = String::from_str("warn");
    let info = String::from_str("info");
    let debug = String::from_str("debug");
    let trace = String::from_str("trace");
    if name == error {
        Some(LogLevel::Error)
    } else if name == warn {
        Some(LogLevel::Warn)
    } else if name == info {
        Some(LogLevel::Info)
    } else if name == debug {
        Some(LogLevel::Debug)
    } else if name == trace {
        Some(LogLevel::Trace)
    } else {
        None
    }
}

} // verus!
