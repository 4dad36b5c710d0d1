//! Progress accounting and the single status line that reports it: a
//! monotonically growing byte counter, throttled redraw decisions, and the
//! arithmetic and layout of the rendered line. Writing the line to the
//! terminal happens outside the library.

use vstd::prelude::*;
use vstd::arithmetic::div_mod::lemma_div_is_ordered;
use crate::dec_str;
use crate::formatter::{
    format_bytes_spec,
    format_bytes_wget,
    format_duration_spec,
    format_duration_wget,
    format_speed_core,
    format_speed_core_spec,
    progress_bar_spec,
    build_progress_bar_wget,
    u64_to_string,
};
use crate::strutil::{pad_left_spec, pad_right_spec, push_pad_left, push_pad_right, suffix_after_last, basename};
use crate::sys::{now_millis, terminal_columns};

verus! {

/// Percentage of `total` that `downloaded` covers, clamped at one hundred;
/// zero when the total is zero.
pub open spec fn percent_spec(downloaded: int, total: int) -> int {
    if total <= 0 {
        0
    } else if downloaded * 100 / total > 100 {
        100
    } else {
        downloaded * 100 / total
    }
}

/// Percentage of `total` already downloaded, clamped at one hundred.
pub fn percent(downloaded: u64, total: u64) -> (r: u8)
    ensures
        r as int == percent_spec(downloaded as int, total as int),
{
    if total == 0 {
        0
    } else {
        let p: u128 = (downloaded as u128) * 100 / (total as u128);
        if p > 100 {
            100
        } else {
            p as u8
        }
    }
}

/// For a fixed total, the reported percentage never decreases as the
/// downloaded count grows, and it never passes one hundred.
pub proof fn lemma_percent_monotonic(d1: int, d2: int, total: int)
    requires
        0 <= d1 <= d2,
    ensures
        percent_spec(d1, total) <= percent_spec(d2, total),
        0 <= percent_spec(d1, total) <= 100,
{
    if total > 0 {
        lemma_div_is_ordered(d1 * 100, d2 * 100, total);
        lemma_div_is_ordered(0, d1 * 100, total);
    }
}

/// Transfer speed in bytes per second from a byte count and an elapsed
/// time in milliseconds; zero when no time has passed, and clamped to the
/// largest 64-bit count.
pub open spec fn speed_spec(downloaded: int, elapsed_ms: int) -> int {
    if elapsed_ms <= 0 {
        0
    } else if downloaded * 1000 / elapsed_ms > u64::MAX {
        u64::MAX as int
    } else {
        downloaded * 1000 / elapsed_ms
    }
}

/// Average transfer speed in bytes per second.
pub fn speed_bps(downloaded: u64, elapsed_ms: u64) -> (r: u64)
    ensures
        r as int == speed_spec(downloaded as int, elapsed_ms as int),
{
    if elapsed_ms == 0 {
        0
    } else {
        let w: u128 = (downloaded as u128) * 1000 / (elapsed_ms as u128);
        if w > u64::MAX as u128 {
            u64::MAX
        } else {
            w as u64
        }
    }
}

/// Milliseconds the rest of the transfer is expected to take: the
/// remaining bytes at the given speed; zero without a speed, and clamped
/// to the largest 64-bit count.
pub open spec fn eta_ms_spec(total: int, downloaded: int, speed: int) -> int {
    let remaining = if total >= downloaded {
        total - downloaded
    } else {
        0
    };
    if speed <= 0 {
        0
    } else if remaining * 1000 / speed > u64::MAX {
        u64::MAX as int
    } else {
        remaining * 1000 / speed
    }
}

/// Expected remaining transfer time in milliseconds.
pub fn eta_ms(total: u64, downloaded: u64, speed: u64) -> (r: u64)
    ensures
        r as int == eta_ms_spec(total as int, downloaded as int, speed as int),
{
    let remaining: u64 = if total >= downloaded {
        total - downloaded
    } else {
        0
    };
    if speed == 0 {
        0
    } else {
        let w: u128 = (remaining as u128) * 1000 / (speed as u128);
        if w > u64::MAX as u128 {
            u64::MAX
        } else {
            w as u64
        }
    }
}

/// The column count the status line is laid out for: the detected width,
/// eighty columns when none is detected, and never below fifty-one.
pub open spec fn effective_cols_spec(cols: Option<u16>) -> int {
    let c = match cols {
        Some(c) => c as int,
        None => 80,
    };
    if c < 51 {
        51
    } else {
        c
    }
}

/// The column count the status line is laid out for.
pub fn effective_cols(cols: Option<u16>) -> (r: usize)
    ensures
        r as int == effective_cols_spec(cols),
{
    let c: usize = match cols {
        Some(c) => c as usize,
        None => 80,
    };
    if c < 51 {
        51
    } else {
        c
    }
}

/// `s` cut to at most `max_len` characters, the last three of a cut string
/// replaced by an ellipsis.
pub open spec fn truncate_spec(s: Seq<char>, max_len: int) -> Seq<char> {
    if s.len() <= max_len {
        s
    } else {
        s.take(if max_len >= 3 {
            max_len - 3
        } else {
            0
        }) + "..."@
    }
}

/// Cut `s` to at most `max_len` characters, marking a cut with an
/// ellipsis.
pub fn truncate_string(s: &str, max_len: usize) -> (r: String)
    ensures
        r@ == truncate_spec(s@, max_len as int),
{
    let n = s.unicode_len();
    if n <= max_len {
        s.to_owned()
    } else {
        let keep: usize = if max_len >= 3 {
            max_len - 3
        } else {
            0
        };
        let mut r = s.substring_char(0, keep).to_owned();
        proof {
            reveal_strlit("...");
        }
        r.append("...");
        proof {
            assert(r@ =~= truncate_spec(s@, max_len as int));
        }
        r
    }
}

/// Shared progress state of one download attempt: the declared total when
/// known, the bytes counted so far, the attempt's start and the time of
/// the last redraw, both in milliseconds since the epoch.
pub struct ProgressTracker {
    pub total: Option<u64>,
    pub downloaded: u64,
    pub start_ms: u64,
    pub last_render_ms: u64,
    pub quiet: bool,
    pub filename: String,
}

/// The full status line: the file name padded into its column, the
/// percentage, the bar when the width leaves room for one, the byte count,
/// the speed, and the expected or elapsed time.
pub open spec fn render_line_spec(t: ProgressTracker, now_ms: int, cols: int) -> Seq<char> {
    let downloaded = t.downloaded as int;
    let elapsed = if now_ms >= t.start_ms {
        now_ms - t.start_ms
    } else {
        0
    };
    let p = match t.total {
        Some(total) => percent_spec(downloaded, total as int),
        None => 0,
    };
    let speed = speed_spec(downloaded, elapsed);
    let eta = match t.total {
        Some(total) => eta_ms_spec(total as int, downloaded, speed),
        None => 0,
    };
    let time_str = if p >= 100 {
        "in "@ + format_duration_spec(elapsed)
    } else {
        "eta "@ + format_duration_spec(eta)
    };
    let usable = cols - 1;
    let mfc = usable / 4;
    let name = truncate_spec(t.filename@, mfc);
    let fixed = mfc + 42;
    let bar_w0 = if usable >= fixed {
        usable - fixed
    } else {
        0
    };
    let bar_w = if bar_w0 < 5 {
        0
    } else {
        bar_w0
    };
    if bar_w > 0 {
        pad_right_spec(name, mfc) + " "@ + pad_left_spec(dec_str(p), 3) + "%["@
            + progress_bar_spec(p, bar_w) + "] "@ + pad_left_spec(
            format_bytes_spec(downloaded),
            7,
        ) + "  "@ + pad_left_spec(format_speed_core_spec(speed), 8) + "/s  "@ + time_str
    } else {
        pad_right_spec(name, mfc) + " "@ + pad_left_spec(dec_str(p), 3) + "% "@ + pad_left_spec(
            format_bytes_spec(downloaded),
            7,
        ) + "  "@ + pad_left_spec(format_speed_core_spec(speed), 8) + "/s  "@ + time_str
    }
}

impl ProgressTracker {
    /// Start tracking one attempt: no bytes counted yet, the name to
    /// display is the part of the path after its last slash, and the start
    /// time is read from the clock.
    pub fn new(total: Option<u64>, filepath: &str, quiet: bool) -> (r: ProgressTracker)
        ensures
            r.total == total,
            r.downloaded == 0,
            r.quiet == quiet,
            r.filename@ == suffix_after_last(filepath@, '/'),
    {
        let now = now_millis();
        ProgressTracker {
            total,
            downloaded: 0,
            start_ms: now,
            last_render_ms: now,
            quiet,
            filename: basename(filepath),
        }
    }

    /// Count `amount` more bytes. The counter only grows; at the top of
    /// its range it saturates rather than wrap.
    pub fn inc(&mut self, amount: u64)
        ensures
            final(self).downloaded == if old(self).downloaded + amount <= u64::MAX {
                old(self).downloaded + amount
            } else {
                u64::MAX as int
            },
            final(self).downloaded >= old(self).downloaded,
            final(self).total == old(self).total,
            final(self).start_ms == old(self).start_ms,
            final(self).last_render_ms == old(self).last_render_ms,
            final(self).quiet == old(self).quiet,
            final(self).filename == old(self).filename,
    {
        if amount <= u64::MAX - self.downloaded {
            self.downloaded = self.downloaded + amount;
        } else {
            self.downloaded = u64::MAX;
        }
    }

    /// Whether the line should be redrawn now: never when quiet, and
    /// otherwise only when more than two hundred milliseconds have passed
    /// since the last redraw.
    pub fn should_render(&self, now_ms: u64) -> (r: bool)
        ensures
            r == (!self.quiet && now_ms - self.last_render_ms > 200),
    {
        if self.quiet {
            false
        } else {
            let since: u64 = if now_ms >= self.last_render_ms {
                now_ms - self.last_render_ms
            } else {
                0
            };
            since > 200
        }
    }

    /// Remember that the line was redrawn at `now_ms`.
    pub fn mark_rendered(&mut self, now_ms: u64)
        ensures
            final(self).last_render_ms == now_ms,
            final(self).total == old(self).total,
            final(self).downloaded == old(self).downloaded,
            final(self).start_ms == old(self).start_ms,
            final(self).quiet == old(self).quiet,
            final(self).filename == old(self).filename,
    {
        self.last_render_ms = now_ms;
    }

    /// Milliseconds between the attempt's start and `now_ms`; zero when the
    /// clock appears to have gone backwards.
    pub fn elapsed_since(&self, now_ms: u64) -> (r: u64)
        ensures
            r as int == if now_ms >= self.start_ms {
                now_ms - self.start_ms
            } else {
                0
            },
    {
        if now_ms >= self.start_ms {
            now_ms - self.start_ms
        } else {
            0
        }
    }

    /// Milliseconds since the attempt started, read from the clock;
    /// nothing can be promised of a clock reading.
    pub fn elapsed(&self) -> u64 {
        let now = now_millis();
        self.elapsed_since(now)
    }

    /// Build the status line for the given time and column count.
    #[verifier::rlimit(100)]
    pub fn render_line_at(&self, now_ms: u64, cols: usize) -> (r: String)
        requires
            cols >= 1,
        ensures
            r@ == render_line_spec(*self, now_ms as int, cols as int),
    {
        let elapsed: u64 = if now_ms >= self.start_ms {
            now_ms - self.start_ms
        } else {
            0
        };
        let p: u8 = match self.total {
            Some(total) => percent(self.downloaded, total),
            None => 0,
        };
        let speed = speed_bps(self.downloaded, elapsed);
        let eta: u64 = match self.total {
            Some(total) => eta_ms(total, self.downloaded, speed),
            None => 0,
        };
        let usable = cols - 1;
        let mfc = usable / 4;
        let name = truncate_string(self.filename.as_str(), mfc);
        let fixed = mfc + 42;
        let bar_w0: usize = if usable >= fixed {
            usable - fixed
        } else {
            0
        };
        let bar_w: usize = if bar_w0 < 5 {
            0
        } else {
            bar_w0
        };
        let mut line = String::new();
        push_pad_right(&mut line, name.as_str(), mfc);
        proof {
            reveal_strlit(" ");
            reveal_strlit("%[");
            reveal_strlit("] ");
            reveal_strlit("% ");
            reveal_strlit("  ");
            reveal_strlit("/s  ");
            reveal_strlit("in ");
            reveal_strlit("eta ");
        }
        line.append(" ");
        let pnum = u64_to_string(p as u64);
        push_pad_left(&mut line, pnum.as_str(), 3);
        if bar_w > 0 {
            line.append("%[");
            let bar = build_progress_bar_wget(p, bar_w);
            line.append(bar.as_str());
            line.append("] ");
        } else {
            line.append("% ");
        }
        let size_str = format_bytes_wget(self.downloaded);
        push_pad_left(&mut line, size_str.as_str(), 7);
        line.append("  ");
        let speed_core = format_speed_core(speed);
        push_pad_left(&mut line, speed_core.as_str(), 8);
        line.append("/s  ");
        let time_s: String = if p >= 100 {
            let mut t = "in ".to_owned();
            let d = format_duration_wget(elapsed);
            t.append(d.as_str());
            t
        } else {
            let mut t = "eta ".to_owned();
            let d = format_duration_wget(eta);
            t.append(d.as_str());
            t
        };
        line.append(time_s.as_str());
        proof {
            assert(line@ == render_line_spec(*self, now_ms as int, cols as int));
        }
        line
    }

    /// Build the status line for the present moment and the detected
    /// terminal width; the line follows `render_line_spec` for whatever
    /// the clock and the terminal reported.
    pub fn render_line(&self) -> (r: String)
        ensures
            exists|now: int, cols: int|
                cols >= 51 && r@ == #[trigger] render_line_spec(*self, now, cols),
    {
        let now = now_millis();
        let cols = effective_cols(terminal_columns());
        let r = self.render_line_at(now, cols);
        proof {
            assert(cols >= 51 && r@ == render_line_spec(*self, now as int, cols as int));
        }
        r
    }
}

} // verus!
