//! Log records handed from the addon to the application.

use vstd::prelude::*;

verus! {

#[derive(Clone, Copy, Debug, PartialEq, Eq, Structural)]
pub enum Level {
    Error,
    Warn,
    Info,
    Debug,
    Trace,
}

impl Level {
    pub open spec fn spec_name(self) -> Seq<char> {
        match self {
            Level::Error => "error"@,
            Level::Warn => "warn"@,
            Level::Info => "info"@,
            Level::Debug => "debug"@,
            Level::Trace => "trace"@,
        }
    }

    /// The level's name as the application sees it.
    pub fn name(self) -> (name: &'static str)
        ensures
            name@ == self.spec_name(),
    {
        match self {
            Level::Error => "error",
            Level::Warn => "warn",
            Level::Info => "info",
            Level::Debug => "debug",
            Level::Trace => "trace",
        }
    }
}

/// One log record: its level, where it comes from, when (seconds since the
/// Unix epoch) and what it says.
#[derive(Debug)]
pub struct Record {
    pub level: Level,
    pub target: String,
    pub time: u64,
    pub message: String,
}

} // verus!
