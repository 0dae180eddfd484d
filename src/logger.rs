//! Log line formatting.
use vstd::prelude::*;

verus! {

/// Severity of a log line.
#[derive(Clone, Copy, Debug, PartialEq, Eq, Structural)]
pub enum LogLevel {
    Info,
    Warning,
    Error,
    Debug,
}

/// The coloured tag that precedes the message of a line at `level`.
pub open spec fn level_tag_spec(level: LogLevel) -> Seq<char> {
    match level {
        LogLevel::Info => "\x1b[32mINFO\x1b[0m"@,
        LogLevel::Warning => "\x1b[33mWARNING\x1b[0m"@,
        LogLevel::Error => "\x1b[31mERROR\x1b[0m"@,
        LogLevel::Debug => "\x1b[34mDEBUG\x1b[0m"@,
    }
}

/// A full log line: `[timestamp] TAG message`.
pub open spec fn log_line_spec(timestamp: Seq<char>, level: LogLevel, message: Seq<char>) -> Seq<char> {
    "["@ + timestamp + "] "@ + level_tag_spec(level) + " "@ + message
}

impl LogLevel {
    /// The coloured tag of this level.
    pub fn tag(&self) -> (r: String)
        ensures
            r@ == level_tag_spec(*self),
    {
        match self {
            LogLevel::Info => String::from_str("\x1b[32mINFO\x1b[0m"),
            LogLevel::Warning => String::from_str("\x1b[33mWARNING\x1b[0m"),
            LogLevel::Error => String::from_str("\x1b[31mERROR\x1b[0m"),
            LogLevel::Debug => String::from_str("\x1b[34mDEBUG\x1b[0m"),
        }
    }
}

/// Formats one log line from a timestamp, a level and a message.
pub fn format_log_line(timestamp: &str, level: LogLevel, message: &str) -> (r: String)
    ensures
        r@ == log_line_spec(timestamp@, level, message@),
{
    let mut line = String::from_str("[");
    line.append(timestamp);
    line.append("] ");
    let tag = level.tag();
    line.append(tag.as_str());
    line.append(" ");
    line.append(message);
    line
}

/// Relies on chrono's `Local::now` and `DateTime::format`: the current local
/// time as `%Y-%m-%d %H:%M:%S`. It depends on the clock and the machine's time
/// zone, so nothing is stated of it.
#[verifier::external_body]
fn local_timestamp() -> (r: String) {
    chrono::Local::now().format("%Y-%m-%d %H:%M:%S").to_string()
}

/// A log line stamped with the current local time.
pub fn log_line(level: LogLevel, message: &str) -> (r: String)
    ensures
        exists|t: Seq<char>| r@ == log_line_spec(t, level, message@),
{
    let timestamp = local_timestamp();
    format_log_line(timestamp.as_str(), level, message)
}

} // verus!
