//! The application log: the lines kept in memory and the events shown live.

use vstd::prelude::*;
use vstd::string::*;

verus! {

/// Severity of a log line.
#[derive(Debug, Clone, Copy, PartialEq, Eq, Structural)]
pub enum LogLevel {
    Info,
    Warn,
    Error,
}

/// A log line as shown live: its level name and its text.
pub struct LogEvent {
    pub level: String,
    pub message: String,
}

/// The tag that starts a kept log line of this level.
pub open spec fn level_tag(level: LogLevel) -> Seq<char> {
    match level {
        LogLevel::Info => "[INFO] "@,
        LogLevel::Warn => "[WARN] "@,
        LogLevel::Error => "[ERRO] "@,
    }
}

/// The name of the level in live events.
pub open spec fn level_name(level: LogLevel) -> Seq<char> {
    match level {
        LogLevel::Info => "info"@,
        LogLevel::Warn => "warn"@,
        LogLevel::Error => "error"@,
    }
}

/// The line kept in the log for a message of this level.
pub fn log_line(level: LogLevel, message: &str) -> (s: String)
    ensures
        s@ == level_tag(level) + message@,
{
    let tag = match level {
        LogLevel::Info => "[INFO] ",
        LogLevel::Warn => "[WARN] ",
        LogLevel::Error => "[ERRO] ",
    };
    String::from_str(tag).concat(message)
}

/// The live event for a message of this level.
pub fn log_event(level: LogLevel, message: &str) -> (e: LogEvent)
    ensures
        e.level@ == level_name(level),
        e.message@ == message@,
{
    let name = match level {
        LogLevel::Info => "info",
        LogLevel::Warn => "warn",
        LogLevel::Error => "error",
    };
    LogEvent { level: String::from_str(name), message: String::from_str(message) }
}

/// The lines joined with a newline between each two.
pub open spec fn joined(lines: Seq<Seq<char>>) -> Seq<char>
    decreases lines.len(),
{
    if lines.len() == 0 {
        Seq::empty()
    } else if lines.len() == 1 {
        lines[0]
    } else {
        joined(lines.drop_last()) + "\n"@ + lines.last()
    }
}

/// The texts of the lines.
pub open spec fn lines_view(lines: Seq<String>) -> Seq<Seq<char>> {
    lines.map_values(|l: String| l@)
}

/// The whole log as one text, one line per entry.
pub fn join_log(lines: &Vec<String>) -> (s: String)
    ensures
        s@ == joined(lines_view(lines@)),
{
    let mut s = String::new();
    let mut i: usize = 0;
    while i < lines.len()
        invariant
            i <= lines@.len(),
            s@ == joined(lines_view(lines@).take(i as int)),
        decreases lines@.len() - i,
    {
        let ghost prev = lines_view(lines@).take(i as int);
        if i > 0 {
            s.append("\n");
        }
        s.append(lines[i].as_str());
        proof {
            let next = lines_view(lines@).take(i + 1);
            assert(next.drop_last() =~= prev);
            assert(next.last() == lines@[i as int]@);
            if i == 0 {
                assert(Seq::<char>::empty() + lines@[0]@ =~= lines@[0]@);
            }
        }
        i = i + 1;
    }
    proof {
        assert(lines_view(lines@).take(lines@.len() as int) =~= lines_view(lines@));
    }
    s
}

} // verus!
