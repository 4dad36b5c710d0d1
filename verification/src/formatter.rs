//! Human-readable formatting of byte counts, speeds and durations, and the
//! fixed-width progress bar, in the style of wget.

use vstd::prelude::*;
use vstd::arithmetic::div_mod::lemma_div_is_ordered;
use vstd::arithmetic::mul::{lemma_mul_inequality, lemma_mul_nonnegative};
use crate::{dec_str, digit_char};

verus! {

/// For a non-negative width and a percentage at most one hundred, the filled
/// column count `width * percent / 100` stays between zero and the width.
pub proof fn lemma_filled_in_range(w: int, p: int)
    requires
        0 <= w,
        0 <= p <= 100,
    ensures
        0 <= w * p / 100 <= w,
{
    lemma_mul_inequality(p, 100, w);
    lemma_div_is_ordered(w * p, w * 100, 100);
    assert(w * 100 / 100 == w) by (nonlinear_arith);
    lemma_mul_nonnegative(w, p);
    lemma_div_is_ordered(0, w * p, 100);
}

/// Append one decimal digit to a string.
fn push_digit(s: &mut String, d: u64)
    requires
        d < 10,
    ensures
        final(s)@ == old(s)@ + seq![digit_char(d as int)],
{
    proof {
        reveal_strlit("0");
        reveal_strlit("1");
        reveal_strlit("2");
        reveal_strlit("3");
        reveal_strlit("4");
        reveal_strlit("5");
        reveal_strlit("6");
        reveal_strlit("7");
        reveal_strlit("8");
        reveal_strlit("9");
    }
    if d == 0 {
        s.append("0");
    } else if d == 1 {
        s.append("1");
    } else if d == 2 {
        s.append("2");
    } else if d == 3 {
        s.append("3");
    } else if d == 4 {
        s.append("4");
    } else if d == 5 {
        s.append("5");
    } else if d == 6 {
        s.append("6");
    } else if d == 7 {
        s.append("7");
    } else if d == 8 {
        s.append("8");
    } else {
        s.append("9");
    }
    proof {
        assert(final(s)@ =~= old(s)@ + seq![digit_char(d as int)]);
    }
}

/// Append the decimal representation of `n` to a string.
fn push_dec(s: &mut String, n: u64)
    ensures
        final(s)@ == old(s)@ + dec_str(n as int),
    decreases n,
{
    if n >= 10 {
        push_dec(s, n / 10);
        push_digit(s, n % 10);
        proof {
            assert(final(s)@ =~= old(s)@ + dec_str(n as int));
        }
    } else {
        push_digit(s, n);
    }
}

/// Decimal representation of `n` as a string.
pub fn u64_to_string(n: u64) -> (r: String)
    ensures
        r@ == dec_str(n as int),
{
    let mut s = String::new();
    push_dec(&mut s, n);
    proof {
        assert(s@ =~= dec_str(n as int));
    }
    s
}

/// A quantity in tenths, written with one decimal place: 15 becomes "1.5".
pub open spec fn tenths_str(t: int) -> Seq<char> {
    dec_str(t / 10) + seq!['.'] + seq![digit_char(t % 10)]
}

/// `n` scaled down by `unit` and rounded to the nearest tenth
/// (ties away from zero), as a count of tenths.
pub open spec fn scaled_tenths(n: int, unit: int) -> int {
    (n * 10 + unit / 2) / unit
}

/// Append `t` tenths as a number with one decimal place.
fn push_tenths(s: &mut String, t: u64)
    ensures
        final(s)@ == old(s)@ + tenths_str(t as int),
{
    proof {
        reveal_strlit(".");
    }
    push_dec(s, t / 10);
    s.append(".");
    push_digit(s, t % 10);
    proof {
        assert(final(s)@ =~= old(s)@ + tenths_str(t as int));
    }
}

pub const KIB: u64 = 1024;
pub const MIB: u64 = 1048576;
pub const GIB: u64 = 1073741824;

/// What `format_bytes_wget` returns: a plain digit string below 1 KiB, and
/// otherwise the count scaled to KiB, MiB or GiB with one decimal place and
/// the unit letter appended.
pub open spec fn format_bytes_spec(bytes: int) -> Seq<char> {
    if bytes < KIB {
        dec_str(bytes)
    } else if bytes < MIB {
        tenths_str(scaled_tenths(bytes, KIB as int)) + seq!['K']
    } else if bytes < GIB {
        tenths_str(scaled_tenths(bytes, MIB as int)) + seq!['M']
    } else {
        tenths_str(scaled_tenths(bytes, GIB as int)) + seq!['G']
    }
}

/// A count of tenths as a number with one decimal place, as a string.
pub fn format_tenths(t: u64) -> (r: String)
    ensures
        r@ == tenths_str(t as int),
{
    let mut s = String::new();
    push_tenths(&mut s, t);
    proof {
        assert(s@ =~= tenths_str(t as int));
    }
    s
}

/// Scale `n` by `unit` to rounded tenths, in 128-bit arithmetic so that no
/// intermediate product overflows.
pub fn scale_to_tenths(n: u64, unit: u64) -> (t: u64)
    requires
        unit >= 1024,
    ensures
        t as int == scaled_tenths(n as int, unit as int),
{
    let wide: u128 = (n as u128) * 10 + (unit as u128) / 2;
    let t: u128 = wide / (unit as u128);
    proof {
        assert(t <= wide / 1024) by (nonlinear_arith)
            requires
                unit >= 1024,
                t == wide / (unit as u128),
        ;
    }
    t as u64
}

/// Format a byte count the way wget prints sizes: `500` -> "500",
/// `1536` -> "1.5K", `1048576` -> "1.0M".
pub fn format_bytes_wget(bytes: u64) -> (r: String)
    ensures
        r@ == format_bytes_spec(bytes as int),
{
    let mut s = String::new();
    proof {
        reveal_strlit("K");
        reveal_strlit("M");
        reveal_strlit("G");
    }
    if bytes < KIB {
        push_dec(&mut s, bytes);
    } else if bytes < MIB {
        push_tenths(&mut s, scale_to_tenths(bytes, KIB));
        s.append("K");
    } else if bytes < GIB {
        push_tenths(&mut s, scale_to_tenths(bytes, MIB));
        s.append("M");
    } else {
        push_tenths(&mut s, scale_to_tenths(bytes, GIB));
        s.append("G");
    }
    proof {
        assert(s@ =~= format_bytes_spec(bytes as int));
    }
    s
}

/// The number-and-unit part of a speed: "2.0MB" for 2 MiB per second.
pub open spec fn format_speed_core_spec(bps: int) -> Seq<char> {
    if bps < KIB {
        dec_str(bps) + seq!['B']
    } else if bps < MIB {
        tenths_str(scaled_tenths(bps, KIB as int)) + seq!['K', 'B']
    } else if bps < GIB {
        tenths_str(scaled_tenths(bps, MIB as int)) + seq!['M', 'B']
    } else {
        tenths_str(scaled_tenths(bps, GIB as int)) + seq!['G', 'B']
    }
}

/// What `format_speed_wget` returns: the speed core with "/s" appended.
pub open spec fn format_speed_spec(bps: int) -> Seq<char> {
    format_speed_core_spec(bps) + seq!['/', 's']
}

/// The number-and-unit part of a wget-style speed, without the "/s" suffix.
pub fn format_speed_core(bps: u64) -> (r: String)
    ensures
        r@ == format_speed_core_spec(bps as int),
{
    let mut s = String::new();
    proof {
        reveal_strlit("B");
        reveal_strlit("KB");
        reveal_strlit("MB");
        reveal_strlit("GB");
    }
    if bps < KIB {
        push_dec(&mut s, bps);
        s.append("B");
    } else if bps < MIB {
        push_tenths(&mut s, scale_to_tenths(bps, KIB));
        s.append("KB");
    } else if bps < GIB {
        push_tenths(&mut s, scale_to_tenths(bps, MIB));
        s.append("MB");
    } else {
        push_tenths(&mut s, scale_to_tenths(bps, GIB));
        s.append("GB");
    }
    proof {
        assert(s@ =~= format_speed_core_spec(bps as int));
    }
    s
}

/// Format a transfer speed in bytes per second the way wget prints rates:
/// `2097152` -> "2.0MB/s".
pub fn format_speed_wget(bps: u64) -> (r: String)
    ensures
        r@ == format_speed_spec(bps as int),
{
    proof {
        reveal_strlit("/s");
    }
    let mut s = format_speed_core(bps);
    s.append("/s");
    proof {
        assert(s@ =~= format_speed_spec(bps as int));
    }
    s
}

/// What `format_duration_wget` returns for a duration in milliseconds:
/// tenths of a second below one second, whole seconds below a minute,
/// minutes and seconds below an hour, and hours and minutes above.
/// Sub-unit parts are rounded to the nearest whole unit.
pub open spec fn format_duration_spec(ms: int) -> Seq<char> {
    if ms < 1000 {
        tenths_str((ms + 50) / 100) + seq!['s']
    } else if ms < 60000 {
        dec_str((ms + 500) / 1000) + seq!['s']
    } else if ms < 3600000 {
        if ms % 60000 > 0 {
            dec_str(ms / 60000) + seq!['m'] + dec_str((ms % 60000 + 500) / 1000) + seq!['s']
        } else {
            dec_str(ms / 60000) + seq!['m']
        }
    } else {
        if ms % 3600000 / 60000 > 0 {
            dec_str(ms / 3600000) + seq!['h'] + dec_str(ms % 3600000 / 60000) + seq!['m']
        } else {
            dec_str(ms / 3600000) + seq!['h']
        }
    }
}

/// Format a duration given in milliseconds the way wget prints times:
/// "0.2s", "30s", "2m30s", "1h2m".
pub fn format_duration_wget(ms: u64) -> (r: String)
    ensures
        r@ == format_duration_spec(ms as int),
{
    let mut s = String::new();
    proof {
        reveal_strlit("s");
        reveal_strlit("m");
        reveal_strlit("h");
    }
    if ms < 1000 {
        push_tenths(&mut s, (ms + 50) / 100);
        s.append("s");
    } else if ms < 60000 {
        push_dec(&mut s, (ms + 500) / 1000);
        s.append("s");
    } else if ms < 3600000 {
        push_dec(&mut s, ms / 60000);
        s.append("m");
        let rem = ms % 60000;
        if rem > 0 {
            push_dec(&mut s, (rem + 500) / 1000);
            s.append("s");
        }
    } else {
        push_dec(&mut s, ms / 3600000);
        s.append("h");
        let mins = ms % 3600000 / 60000;
        if mins > 0 {
            push_dec(&mut s, mins);
            s.append("m");
        }
    }
    proof {
        assert(s@ =~= format_duration_spec(ms as int));
    }
    s
}

/// `n` copies of the character `c`.
pub open spec fn char_repeat(c: char, n: int) -> Seq<char> {
    Seq::new(n as nat, |i: int| c)
}

/// Append `n` spaces.
pub(crate) fn push_spaces(s: &mut String, n: usize)
    ensures
        final(s)@ == old(s)@ + char_repeat(' ', n as int),
{
    let mut j: usize = 0;
    while j < n
        invariant
            j <= n,
            s@ == old(s)@ + char_repeat(' ', j as int),
        decreases n - j,
    {
        proof {
            reveal_strlit(" ");
        }
        s.append(" ");
        j = j + 1;
        proof {
            assert(s@ =~= old(s)@ + char_repeat(' ', j as int));
        }
    }
}

/// Append `n` fill marks.
fn push_fill(s: &mut String, n: usize)
    ensures
        final(s)@ == old(s)@ + char_repeat('=', n as int),
{
    let mut j: usize = 0;
    while j < n
        invariant
            j <= n,
            s@ == old(s)@ + char_repeat('=', j as int),
        decreases n - j,
    {
        proof {
            reveal_strlit("=");
        }
        s.append("=");
        j = j + 1;
        proof {
            assert(s@ =~= old(s)@ + char_repeat('=', j as int));
        }
    }
}

/// What `build_progress_bar_wget` returns. A full bar is fill marks with the
/// head marker last; a partial bar is `width * percent / 100` leading columns,
/// the last of them the head marker, padded with spaces; an empty bar is all
/// spaces.
pub open spec fn progress_bar_spec(percent: int, width: int) -> Seq<char> {
    let p = if percent > 100 {
        100
    } else {
        percent
    };
    if p == 100 {
        char_repeat('=', if width >= 1 {
            width - 1
        } else {
            0
        }) + seq!['>']
    } else {
        let filled = width * p / 100;
        if filled == 0 {
            char_repeat(' ', width)
        } else {
            char_repeat('=', filled - 1) + seq!['>'] + char_repeat(' ', width - filled)
        }
    }
}

/// Build a wget-style progress bar: at `percent` percent, the bar's leading
/// portion is filled and tipped with a head marker, the rest is spaces.
pub fn build_progress_bar_wget(percent: u8, width: usize) -> (r: String)
    ensures
        r@ == progress_bar_spec(percent as int, width as int),
{
    let p: u8 = if percent > 100 {
        100
    } else {
        percent
    };
    proof {
        reveal_strlit(">");
    }
    let mut s = String::new();
    if p == 100 {
        push_fill(&mut s, if width >= 1 {
            width - 1
        } else {
            0
        });
        s.append(">");
    } else {
        proof {
            lemma_filled_in_range(width as int, p as int);
            lemma_mul_inequality(p as int, 100, width as int);
        }
        let filled: usize = ((width as u128) * (p as u128) / 100) as usize;
        if filled == 0 {
            push_spaces(&mut s, width);
        } else {
            push_fill(&mut s, filled - 1);
            s.append(">");
            push_spaces(&mut s, width - filled);
        }
    }
    proof {
        assert(s@ =~= progress_bar_spec(percent as int, width as int));
    }
    s
}

/// The progress bar of a positive requested width always has exactly that
/// width; at zero percent it is all spaces; at one hundred percent its last
/// column is the head marker and every column before it is a fill mark.
pub proof fn lemma_progress_bar_shape(percent: int, width: int)
    requires
        0 <= percent,
        1 <= width,
    ensures
        progress_bar_spec(percent, width).len() == width,
        percent == 0 ==> forall|i: int|
            0 <= i < width ==> progress_bar_spec(percent, width)[i] == ' ',
        percent >= 100 ==> progress_bar_spec(percent, width)[width - 1] == '>',
        percent >= 100 ==> forall|i: int|
            0 <= i < width - 1 ==> progress_bar_spec(percent, width)[i] == '=',
{
    if percent < 100 {
        lemma_filled_in_range(width, percent);
        if percent == 0 {
            assert(width * 0 == 0) by (nonlinear_arith);
        }
    }
}

} // verus!
