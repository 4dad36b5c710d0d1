//! Trusted access to the clock and the terminal. Each function's result
//! depends on when and where it runs, so nothing is promised about the
//! values; every caller states what holds whatever comes back.

use vstd::prelude::*;

verus! {

/// Milliseconds since the Unix epoch.
///
/// Relies on chrono::Utc::now and chrono::DateTime::timestamp_millis; the
/// result depends on the clock, so nothing is promised about it.
#[verifier::external_body]
pub(crate) fn now_millis() -> u64 {
    chrono::Utc::now().timestamp_millis() as u64
}

/// The terminal's width in columns, when one can be detected.
///
/// Relies on crossterm::terminal::size; the result depends on the terminal
/// the process runs in, so nothing is promised about it.
#[verifier::external_body]
pub(crate) fn terminal_columns() -> Option<u16> {
    crossterm::terminal::size().ok().map(|(c, _)| c)
}

} // verus!
