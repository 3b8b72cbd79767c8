//! Severity levels and the tags that stand for them in a log line.

use vstd::prelude::*;

verus! {

/// How severe a message is.
#[derive(Debug, Clone, Copy)]
pub enum LogLevel {
    Trace,
    Debug,
    Info,
    Warn,
    Error,
}

impl LogLevel {
    /// The tag of a level: its name, coloured by terminal escapes above
    /// `Trace`, and set off by a tab at `Warn`.
    pub open spec fn tag(self) -> Seq<char> {
        match self {
            LogLevel::Trace => "TRACE"@,
            LogLevel::Debug => "\x1b[34mDEBUG\x1b[0m"@,
            LogLevel::Info => "\x1b[32mINFO\x1b[0m"@,
            LogLevel::Warn => "\t\x1b[33mWARN\x1b[0m"@,
            LogLevel::Error => "\x1b[31mERROR\x1b[0m"@,
        }
    }

    /// The tag as it is printed.
    pub fn as_str(self) -> (r: &'static str)
        ensures
            r@ == self.tag(),
    {
        match self {
            LogLevel::Trace => "TRACE",
            LogLevel::Debug => "\x1b[34mDEBUG\x1b[0m",
            LogLevel::Info => "\x1b[32mINFO\x1b[0m",
            LogLevel::Warn => "\t\x1b[33mWARN\x1b[0m",
            LogLevel::Error => "\x1b[31mERROR\x1b[0m",
        }
    }
}

/// The tags of any two levels differ within their first four characters.
pub proof fn tags_begin_apart(a: LogLevel, b: LogLevel)
    ensures
        a.tag().len() >= 4,
        b.tag().len() >= 4,
        a.tag()[3] == b.tag()[3] ==> a == b,
{
    reveal_strlit("TRACE");
    reveal_strlit("\x1b[34mDEBUG\x1b[0m");
    reveal_strlit("\x1b[32mINFO\x1b[0m");
    reveal_strlit("\t\x1b[33mWARN\x1b[0m");
    reveal_strlit("\x1b[31mERROR\x1b[0m");
    assert(LogLevel::Trace.tag()[3] == 'C');
    assert(LogLevel::Debug.tag()[3] == '4');
    assert(LogLevel::Info.tag()[3] == '2');
    assert(LogLevel::Warn.tag()[3] == '3');
    assert(LogLevel::Error.tag()[3] == '1');
}

/// A tag tells its level: no two levels share one.
pub proof fn tags_tell_levels_apart(a: LogLevel, b: LogLevel)
    requires
        a.tag() == b.tag(),
    ensures
        a == b,
{
    tags_begin_apart(a, b);
}

} // verus!
