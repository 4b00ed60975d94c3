//! How much the program reports.
use vstd::prelude::*;
use vstd::string::*;
use crate::text::{debug_quoted, debug_text_of, text_eq};

verus! {

/// Output levels, from silent to everything.
#[derive(Debug, Clone, Copy, PartialEq, Eq, Structural)]
pub enum LogLevel {
    Quiet,
    Error,
    Info,
}

pub open spec fn log_level_name(l: LogLevel) -> Seq<char> {
    match l {
        LogLevel::Quiet => seq!['q', 'u', 'i', 'e', 't'],
        LogLevel::Error => seq!['e', 'r', 'r', 'o', 'r'],
        LogLevel::Info => seq!['i', 'n', 'f', 'o'],
    }
}

pub open spec fn unknown_level_message(s: Seq<char>) -> Seq<char> {
    "I don't know the log level of "@ + debug_text_of(s)
}

impl LogLevel {
    /// The level's name, as the command line writes it.
    pub fn as_str(&self) -> (r: &'static str)
        ensures
            r@ == log_level_name(*self),
    {
        proof {
            reveal_strlit("quiet");
            reveal_strlit("error");
            reveal_strlit("info");
        }
        let r = match self {
            LogLevel::Quiet => "quiet",
            LogLevel::Error => "error",
            LogLevel::Info => "info",
        };
        assert(r@ =~= log_level_name(*self));
        r
    }

    /// Reads a level name: `quiet`, `error`, or `info` (also `all`).
    pub fn from_str(s: &str) -> (r: Result<LogLevel, String>)
        ensures
            s@ == "quiet"@ ==> r == Ok::<LogLevel, String>(LogLevel::Quiet),
            s@ == "info"@ || s@ == "all"@ ==> r == Ok::<LogLevel, String>(LogLevel::Info),
            s@ == "error"@ ==> r == Ok::<LogLevel, String>(LogLevel::Error),
            s@ != "quiet"@ && s@ != "info"@ && s@ != "all"@ && s@ != "error"@ ==> (r matches Err(
                m,
            ) && m@ == unknown_level_message(s@)),
    {
        proof {
            reveal_strlit("quiet");
            reveal_strlit("info");
            reveal_strlit("all");
            reveal_strlit("error");
        }
        assert("quiet"@.len() == 5 && "info"@.len() == 4 && "all"@.len() == 3 && "error"@.len()
            == 5);
        assert("quiet"@[0] != "error"@[0]);
        if text_eq(s, "quiet") {
            Ok(LogLevel::Quiet)
        } else if text_eq(s, "info") || text_eq(s, "all") {
            Ok(LogLevel::Info)
        } else if text_eq(s, "error") {
            Ok(LogLevel::Error)
        } else {
            let mut m = String::from_str("I don't know the log level of ");
            let q = debug_quoted(s);
            m.append(q.as_str());
            Err(m)
        }
    }
}

} // verus!
