//! The lines of the application log.

use chrono::{DateTime, SecondsFormat, Utc};
use vstd::prelude::*;
use vstd::string::*;

verus! {

/// How weighty a log record is, the weightiest first.
#[derive(Clone, Copy, Debug, PartialEq, Eq, Structural)]
pub enum Level {
    Error,
    Warn,
    Info,
    Debug,
    Trace,
}

/// Whether records of `level` are logged: those that weigh as much as `Info`
/// or more.
pub open spec fn is_enabled(level: Level) -> bool {
    level is Error || level is Warn || level is Info
}

/// Whether records of `level` are logged.
pub fn enabled(level: Level) -> (logged: bool)
    ensures
        logged == is_enabled(level),
{
    match level {
        Level::Error | Level::Warn | Level::Info => true,
        Level::Debug | Level::Trace => false,
    }
}

/// The name of `level` as it stands in a log line.
pub open spec fn level_text(level: Level) -> Seq<char> {
    match level {
        Level::Error => "ERROR"@,
        Level::Warn => "WARN"@,
        Level::Info => "INFO"@,
        Level::Debug => "DEBUG"@,
        Level::Trace => "TRACE"@,
    }
}

/// The name of `level` as it stands in a log line.
pub fn level_name(level: Level) -> (name: &'static str)
    ensures
        name@ == level_text(level),
{
    match level {
        Level::Error => "ERROR",
        Level::Warn => "WARN",
        Level::Info => "INFO",
        Level::Debug => "DEBUG",
        Level::Trace => "TRACE",
    }
}

/// The line of one record: in brackets the time, the level and the origin,
/// or `unknown` where the record names no origin; then the message.
pub open spec fn record_line(
    timestamp: Seq<char>,
    level: Seq<char>,
    origin: Option<Seq<char>>,
    message: Seq<char>,
) -> Seq<char> {
    "["@ + timestamp + " "@ + level + " "@ + (match origin {
        Some(path) => path,
        None => "unknown"@,
    }) + "] "@ + message
}

/// Writes the line of one record.
pub fn format_record(timestamp: &str, level: &str, origin: Option<&str>, message: &str) -> (line:
    String)
    ensures
        line@ == record_line(timestamp@, level@, origin.deep_view(), message@),
{
    let mut line = String::from_str("[");
    line.append(timestamp);
    line.append(" ");
    line.append(level);
    line.append(" ");
    match origin {
        Some(path) => {
            line.append(path);
        },
        None => {
            line.append("unknown");
        },
    }
    line.append("] ");
    line.append(message);
    line
}

/// The moment that lies `seconds` seconds and `nanos` nanoseconds after the
/// start of 1970 in universal time, written by RFC 3339 with milliseconds
/// and `Z`; nothing for a moment that the calendar cannot hold.
pub uninterp spec fn rfc3339_millis(seconds: i64, nanos: u32) -> Option<Seq<char>>;

/// Calls `chrono::DateTime::<Utc>::from_timestamp` to enter the moment and
/// `chrono::DateTime::to_rfc3339_opts`, with `SecondsFormat::Millis` and
/// `Z`, to write it. The contract claims only that the text depends on the
/// two numbers alone, and gives it its name.
#[verifier::external_body]
fn timestamp_text(seconds: i64, nanos: u32) -> (text: Option<String>)
    ensures
        text.deep_view() == rfc3339_millis(seconds, nanos),
{
    match DateTime::<Utc>::from_timestamp(seconds, nanos) {
        Some(moment) => Some(moment.to_rfc3339_opts(SecondsFormat::Millis, true)),
        None => None,
    }
}

/// The line of a record of `level` made at the given moment, if the record
/// is logged and the moment can be written.
pub open spec fn logged_line(
    seconds: i64,
    nanos: u32,
    level: Level,
    origin: Option<Seq<char>>,
    message: Seq<char>,
) -> Option<Seq<char>> {
    if is_enabled(level) {
        match rfc3339_millis(seconds, nanos) {
            Some(timestamp) => Some(record_line(timestamp, level_text(level), origin, message)),
            None => None,
        }
    } else {
        None
    }
}

/// Decides whether a record is logged and writes its line.
pub fn log_record(seconds: i64, nanos: u32, level: Level, origin: Option<&str>, message: &str) -> (line:
    Option<String>)
    ensures
        line.deep_view() == logged_line(seconds, nanos, level, origin.deep_view(), message@),
{
    if !enabled(level) {
        return None;
    }
    match timestamp_text(seconds, nanos) {
        Some(timestamp) => Some(
            format_record(timestamp.as_str(), level_name(level), origin, message),
        ),
        None => None,
    }
}

} // verus!
