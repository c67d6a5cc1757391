//! What structured logging is set up with.
//!
//! In TUI mode, logs MUST NOT go to stdout (the terminal library owns it as the
//! alt-screen) or stderr (most terminals render stderr on the same surface,
//! corrupting the TUI). A trace file directs logs to a file in TUI mode.

use vstd::prelude::*;

verus! {

/// Output format for structured logs.
#[derive(Clone, Copy, Debug, PartialEq, Eq, Structural)]
pub enum LogFormat {
    /// Human-readable text (one line per event).
    Text,
    /// Structured JSON (one JSON object per event).
    Json,
}

impl LogFormat {
    pub fn is_json(self) -> (r: bool)
        ensures
            r == (self == LogFormat::Json),
    {
        match self {
            LogFormat::Json => true,
            LogFormat::Text => false,
        }
    }
}

pub open spec fn default_level(dump: bool) -> Seq<char> {
    if dump {
        "warn"@
    } else {
        "off"@
    }
}

/// The log level: the one that was asked for, else warn in headless mode and
/// off in TUI mode (stderr corrupts the alt-screen).
pub fn level<'a>(asked: Option<&'a str>, dump: bool) -> (r: &'a str)
    ensures
        r@ == match asked {
            Some(l) => l@,
            None => default_level(dump),
        },
{
    match asked {
        Some(l) => l,
        None => if dump {
            "warn"
        } else {
            "off"
        },
    }
}

/// The log format: the one that was asked for, else JSON when logging to a file
/// (machine-parseable), text when going to stderr (human-readable).
pub fn format(asked: Option<LogFormat>, to_file: bool) -> (r: LogFormat)
    ensures
        r == match asked {
            Some(f) => f,
            None => if to_file {
                LogFormat::Json
            } else {
                LogFormat::Text
            },
        },
{
    match asked {
        Some(f) => f,
        None => if to_file {
            LogFormat::Json
        } else {
            LogFormat::Text
        },
    }
}

} // verus!
