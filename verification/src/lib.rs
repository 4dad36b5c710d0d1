//! Verified core of a multi-connection HTTP download tool.
//!
//! The library holds the decision and computation logic of the downloader:
//! human-readable formatting, strategy selection, chunk partitioning, retry
//! bookkeeping, header inspection and progress arithmetic. Network and file
//! I/O live outside the library and hand plain values in and out.

pub mod cli;
pub mod config;
pub mod downloader;
pub mod error;
pub mod formatter;
pub mod http;
pub mod progress;
pub mod recursive;
pub mod strutil;
mod sys;
pub mod urlinfo;

use vstd::prelude::*;

verus! {

/// Decimal digit as a character.
pub open spec fn digit_char(d: int) -> char {
    if d == 0 {
        '0'
    } else if d == 1 {
        '1'
    } else if d == 2 {
        '2'
    } else if d == 3 {
        '3'
    } else if d == 4 {
        '4'
    } else if d == 5 {
        '5'
    } else if d == 6 {
        '6'
    } else if d == 7 {
        '7'
    } else if d == 8 {
        '8'
    } else {
        '9'
    }
}

/// Decimal representation of a non-negative integer, most significant digit first.
pub open spec fn dec_str(n: int) -> Seq<char>
    decreases n,
{
    if n < 10 {
        seq![digit_char(n)]
    } else {
        dec_str(n / 10) + seq![digit_char(n % 10)]
    }
}

} // verus!
