//! Timestamped, levelled log lines: the line text is composed exactly as
//! `log_line_of` states, from the painted timestamp, the painted level
//! tag, and the message; writing it is best-effort.

use crate::term;
use vstd::prelude::*;
use vstd::string::*;

verus! {

/// The severity of a log line.
#[derive(Debug, Clone, Copy)]
pub enum LogLevel {
    Debug,
    Info,
    Success,
    Warning,
    Error,
}

/// The bracketed tag of a level.
pub open spec fn level_tag(level: LogLevel) -> Seq<char> {
    match level {
        LogLevel::Debug => "[DEBUG]"@,
        LogLevel::Info => "[INFO]"@,
        LogLevel::Success => "[SUCCESS]"@,
        LogLevel::Warning => "[WARN]"@,
        LogLevel::Error => "[ERROR]"@,
    }
}

fn tag_literal(level: LogLevel) -> (r: &'static str)
    ensures
        r@ == level_tag(level),
{
    match level {
        LogLevel::Debug => "[DEBUG]",
        LogLevel::Info => "[INFO]",
        LogLevel::Success => "[SUCCESS]",
        LogLevel::Warning => "[WARN]",
        LogLevel::Error => "[ERROR]",
    }
}

/// One log line: timestamp, tag, and message, separated by single spaces.
pub open spec fn log_line_of(timestamp: Seq<char>, tag: Seq<char>, message: Seq<char>) -> Seq<
    char,
> {
    timestamp + " "@ + tag + " "@ + message
}

/// Composes one log line, as `log_line_of` states.
pub fn format_log_line(timestamp: &str, tag: &str, message: &str) -> (r: String)
    ensures
        r@ == log_line_of(timestamp@, tag@, message@),
{
    let mut s = String::from_str(timestamp);
    s.append(" ");
    s.append(tag);
    s.append(" ");
    s.append(message);
    s
}

/// Reads the clock, paints the timestamp and the level's tag in the
/// level's colour, composes the line, and writes it.
fn log(level: LogLevel, message: &str) {
    let timestamp = term::timestamp_now();
    let painted_ts = term::paint_bright_black(timestamp.as_str());
    let tag = tag_literal(level);
    let painted_tag = match level {
        LogLevel::Debug => term::paint_bright_black(tag),
        LogLevel::Info => term::paint_bright_blue(tag),
        LogLevel::Success => term::paint_bright_green(tag),
        LogLevel::Warning => term::paint_bright_yellow(tag),
        LogLevel::Error => term::paint_bright_red(tag),
    };
    let line = format_log_line(painted_ts.as_str(), painted_tag.as_str(), message);
    term::emit_text_line(line.as_str());
}

/// Logs at the informational level.
pub fn log_info(message: &str) {
    log(LogLevel::Info, message);
}

/// Logs a success.
pub fn log_success(message: &str) {
    log(LogLevel::Success, message);
}

/// Logs a warning.
pub fn log_warn(message: &str) {
    log(LogLevel::Warning, message);
}

/// Logs an error.
pub fn log_error(message: &str) {
    log(LogLevel::Error, message);
}

/// Logs at the debug level.
pub fn log_debug(message: &str) {
    log(LogLevel::Debug, message);
}

} // verus!
