//! Lines of the error log.

use vstd::prelude::*;

use crate::text::{decimal, i64_to_decimal, push_char};

verus! {

/// The current time in milliseconds since the Unix epoch (0 before the epoch).
pub fn unix_timestamp_ms() -> i64 {
    crate::storage::now_ms()
}

/// One line of the error log: the timestamp in brackets, a space, the message, and a
/// line break.
pub open spec fn log_line_text(timestamp: i64, message: Seq<char>) -> Seq<char> {
    seq!['['] + decimal(timestamp as int) + seq![']', ' '] + message + seq!['\n']
}

/// Formats one line of the error log.
pub fn log_line(timestamp: i64, message: &str) -> (r: String)
    ensures
        r@ == log_line_text(timestamp, message@),
{
    let mut line = String::new();
    push_char(&mut line, '[');
    let digits = i64_to_decimal(timestamp);
    line.append(digits.as_str());
    push_char(&mut line, ']');
    push_char(&mut line, ' ');
    line.append(message);
    push_char(&mut line, '\n');
    assert(line@ =~= log_line_text(timestamp, message@));
    line
}

/// A log line for an error that happened now.
pub fn timestamped_log_line(message: &str) -> (r: String)
    ensures
        exists|t: i64| r@ == log_line_text(t, message@),
{
    log_line(unix_timestamp_ms(), message)
}

} // verus!
