//! The terminal and clock boundary: every call into an outside crate or an
//! unspecified part of std that the library makes goes through one of the
//! small trusted functions here.
//!
//! A painted string depends on the environment (whether the stream is a
//! terminal, `NO_COLOR`, and so on), so the contracts state only what holds
//! of every outcome: the painted text still contains the original text.

use colored::Colorize;
use std::io::Write;
use vstd::prelude::*;

verus! {

/// Holds when no character of `s` is the ANSI escape character, so that
/// colouring cannot rewrite the text itself.
pub open spec fn escape_free(s: Seq<char>) -> bool {
    forall|i: int| 0 <= i < s.len() ==> s[i] != '\u{1b}'
}

/// Relies on std::time::SystemTime::now and duration_since: a best-effort
/// wall-clock reading in milliseconds; nothing is promised of its value.
#[verifier::external_body]
pub(crate) fn now_millis() -> u64 {
    match std::time::SystemTime::now().duration_since(std::time::UNIX_EPOCH) {
        Ok(d) => d.as_millis() as u64,
        Err(_) => 0,
    }
}

/// Relies on chrono's Local::now and format with "%Y-%m-%d %H:%M:%S": the
/// formatted local time holds digits and separators only, never the ANSI
/// escape character; its value depends on the clock, so nothing more is said.
#[verifier::external_body]
pub(crate) fn timestamp_now() -> (r: String)
    ensures
        escape_free(r@),
{
    chrono::Local::now().format("%Y-%m-%d %H:%M:%S").to_string()
}

/// Relies on colored's Colorize::green: when the input holds no escape
/// character, the result is the input, possibly enclosed in colour escape
/// sequences (colored rewrites inner reset sequences, so nothing is said
/// of other inputs).
#[verifier::external_body]
pub(crate) fn paint_green(s: &str) -> (r: String)
    ensures
        escape_free(s@) ==> exists|a: Seq<char>, b: Seq<char>| r@ == a + s@ + b,
{
    s.green().to_string()
}

/// Relies on colored's Colorize::bright_blue, as `paint_green` does.
#[verifier::external_body]
pub(crate) fn paint_bright_blue(s: &str) -> (r: String)
    ensures
        escape_free(s@) ==> exists|a: Seq<char>, b: Seq<char>| r@ == a + s@ + b,
{
    s.bright_blue().to_string()
}

/// Relies on colored's Colorize::bright_black, as `paint_green` does.
#[verifier::external_body]
pub(crate) fn paint_bright_black(s: &str) -> (r: String)
    ensures
        escape_free(s@) ==> exists|a: Seq<char>, b: Seq<char>| r@ == a + s@ + b,
{
    s.bright_black().to_string()
}

/// Relies on colored's Colorize::bright_green, as `paint_green` does.
#[verifier::external_body]
pub(crate) fn paint_bright_green(s: &str) -> (r: String)
    ensures
        escape_free(s@) ==> exists|a: Seq<char>, b: Seq<char>| r@ == a + s@ + b,
{
    s.bright_green().to_string()
}

/// Relies on colored's Colorize::bright_yellow, as `paint_green` does.
#[verifier::external_body]
pub(crate) fn paint_bright_yellow(s: &str) -> (r: String)
    ensures
        escape_free(s@) ==> exists|a: Seq<char>, b: Seq<char>| r@ == a + s@ + b,
{
    s.bright_yellow().to_string()
}

/// Relies on colored's Colorize::bright_red, as `paint_green` does.
#[verifier::external_body]
pub(crate) fn paint_bright_red(s: &str) -> (r: String)
    ensures
        escape_free(s@) ==> exists|a: Seq<char>, b: Seq<char>| r@ == a + s@ + b,
{
    s.bright_red().to_string()
}

/// Relies on std::io::Stdout: writes a carriage return and the line, then
/// flushes, overwriting the current terminal line; write errors are
/// swallowed, as rendering is best-effort.
#[verifier::external_body]
pub(crate) fn emit_progress_line(line: &str) {
    let mut stdout = std::io::stdout();
    let _ = write!(stdout, "\r{}", line);
    let _ = stdout.flush();
}

/// Relies on std::io::Stdout: writes the text and a trailing line break,
/// then flushes; write errors are swallowed.
#[verifier::external_body]
pub(crate) fn emit_text_line(line: &str) {
    let mut stdout = std::io::stdout();
    let _ = writeln!(stdout, "{}", line);
    let _ = stdout.flush();
}

} // verus!
