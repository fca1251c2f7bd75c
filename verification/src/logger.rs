//! A small levelled logger. It decides which messages are emitted and how a
//! line reads; writing the line out is left to the caller.

use vstd::prelude::*;
use vstd::string::StringExecFns;

verus! {

/// The level a logger is set to.
#[derive(Clone, Copy, Debug, PartialEq, Eq, Structural)]
pub enum LogLevel {
    Info,
    Warning,
    Error,
}

/// A line as it is written out: the text between two spaces.
pub open spec fn line(text: Seq<char>) -> Seq<char> {
    seq![' '] + text + seq![' ']
}

/// Whether a logger set to `level` emits informational messages: only at
/// `Info`.
pub open spec fn emits_info(level: LogLevel) -> bool {
    level == LogLevel::Info
}

/// Whether a logger set to `level` emits warnings: at `Warning` and at
/// `Error`, not at `Info`.
pub open spec fn emits_warn(level: LogLevel) -> bool {
    level != LogLevel::Info
}

/// What a logger hands back for a message: the line, if it is emitted.
pub open spec fn emitted(emits: bool, text: Seq<char>, out: Option<String>) -> bool {
    match out {
        Some(written) => emits && written@ == line(text),
        None => !emits,
    }
}

pub struct Logger {
    loglevel: LogLevel,
}

impl Logger {
    /// The level the logger is set to.
    pub closed spec fn level(&self) -> LogLevel {
        self.loglevel
    }

    pub fn new(loglevel: LogLevel) -> (logger: Self)
        ensures
            logger.level() == loglevel,
    {
        Self { loglevel }
    }

    pub fn set_level(&mut self, loglevel: LogLevel)
        ensures
            final(self).level() == loglevel,
    {
        self.loglevel = loglevel;
    }

    /// Formats a message as a line.
    pub fn log(text: &str) -> (written: String)
        ensures
            written@ == line(text@),
    {
        let written = String::from_str(" ").concat(text).concat(" ");
        proof {
            reveal_strlit(" ");
            assert(" "@ =~= seq![' ']);
        }
        written
    }

    /// An informational message: emitted only at level `Info`.
    pub fn info(&self, text: &str) -> (out: Option<String>)
        ensures
            emitted(emits_info(self.level()), text@, out),
    {
        match self.loglevel {
            LogLevel::Info => Some(Logger::log(text)),
            _ => None,
        }
    }

    /// A warning: emitted at levels `Warning` and `Error`.
    pub fn warn(&self, text: &str) -> (out: Option<String>)
        ensures
            emitted(emits_warn(self.level()), text@, out),
    {
        match self.loglevel {
            LogLevel::Info => None,
            LogLevel::Warning => Some(Logger::log(text)),
            LogLevel::Error => Some(Logger::log(text)),
        }
    }

    /// An error: emitted at every level.
    pub fn error(&self, text: &str) -> (out: Option<String>)
        ensures
            emitted(true, text@, out),
    {
        Some(Logger::log(text))
    }
}

} // verus!
