//! Decision logic of the download engine: strategy selection, chunk
//! partitioning for concurrent transfers, retry bookkeeping, metadata
//! assembly and output-name conflict resolution. The network and file I/O
//! that act on these decisions live outside the library.

use vstd::prelude::*;
use vstd::arithmetic::div_mod::{lemma_div_is_ordered, lemma_fundamental_div_mod};
use vstd::arithmetic::mul::{lemma_mul_inequality, lemma_mul_nonnegative};
use crate::dec_str;

verus! {

/// Threshold above which a known-length, range-capable resource is split
/// into concurrent chunks.
pub const CHUNK_THRESHOLD: u64 = 1048576;

/// How one download attempt is carried out.
#[derive(Clone, Copy, Debug, PartialEq, Eq, Structural)]
pub enum Strategy {
    /// The file on disk already holds the whole resource; nothing is fetched.
    AlreadyComplete,
    /// The remaining range is split into concurrent ranged fetches.
    Chunked,
    /// One request fetches the remaining range of a known-length resource.
    Single,
    /// The body is streamed sequentially; its total length is unknown.
    Streaming,
}

/// The strategy chosen for a resource: already complete when the resume
/// offset reaches a known total; chunked when the total is known, ranges are
/// supported, more than one connection is allowed and the resource is large
/// enough; single-stream for any other known total; streaming when the total
/// is unknown.
pub open spec fn strategy_spec(
    total_size: Option<u64>,
    supports_range: bool,
    concurrent: int,
    resume_offset: int,
) -> Strategy {
    match total_size {
        Some(total) => if resume_offset >= total {
            Strategy::AlreadyComplete
        } else if supports_range && concurrent > 1 && total > CHUNK_THRESHOLD {
            Strategy::Chunked
        } else {
            Strategy::Single
        },
        None => Strategy::Streaming,
    }
}

/// Choose the download strategy. The result is a function of the four
/// arguments alone, so repeated selection over the same inputs always
/// returns the same strategy.
pub fn select_strategy(
    total_size: Option<u64>,
    supports_range: bool,
    concurrent: usize,
    resume_offset: u64,
) -> (r: Strategy)
    ensures
        r == strategy_spec(total_size, supports_range, concurrent as int, resume_offset as int),
{
    match total_size {
        Some(total) => {
            if resume_offset >= total {
                Strategy::AlreadyComplete
            } else if supports_range && concurrent > 1 && total > CHUNK_THRESHOLD {
                Strategy::Chunked
            } else {
                Strategy::Single
            }
        },
        None => Strategy::Streaming,
    }
}

/// The range header of a single-stream request: the remaining range when
/// resuming a known-length resource, nothing otherwise.
pub open spec fn single_range_spec(resume_offset: int, total_size: Option<u64>) -> Option<
    (u64, u64),
> {
    if resume_offset > 0 {
        match total_size {
            Some(total) => Some((resume_offset as u64, (total - 1) as u64)),
            None => None,
        }
    } else {
        None
    }
}

/// The byte range a single-stream request asks for, if any.
pub fn single_range(resume_offset: u64, total_size: Option<u64>) -> (r: Option<(u64, u64)>)
    requires
        resume_offset > 0 && total_size is Some ==> resume_offset < total_size->0,
    ensures
        r == single_range_spec(resume_offset as int, total_size),
{
    if resume_offset > 0 {
        match total_size {
            Some(total) => Some((resume_offset, total - 1)),
            None => None,
        }
    } else {
        None
    }
}

/// Size of each chunk but possibly the last: the remaining byte count
/// divided by the number of connections, rounded up.
pub open spec fn chunk_size_spec(start: int, total: int, c: int) -> int {
    (total - start - 1) / c + 1
}

/// Where a chunk that begins at `s` ends: a full chunk below the last byte,
/// clipped to the last byte of the resource.
pub open spec fn chunk_end_spec(s: int, cs: int, total: int) -> int {
    if s + cs - 1 <= total - 1 {
        s + cs - 1
    } else {
        total - 1
    }
}

/// The chunk size is at least one byte, at most the remaining byte count,
/// and `c` chunks of it cover the remaining range.
proof fn lemma_chunk_size_bounds(start: int, total: int, c: int)
    requires
        0 <= start < total,
        c >= 1,
    ensures
        1 <= chunk_size_spec(start, total, c) <= total - start,
        c * chunk_size_spec(start, total, c) >= total - start,
{
    let rem = total - start;
    let cs = chunk_size_spec(start, total, c);
    lemma_fundamental_div_mod(rem - 1, c);
    assert((rem - 1) % c < c && (rem - 1) % c >= 0) by (nonlinear_arith)
        requires
            rem - 1 >= 0,
            c >= 1,
    ;
    assert((rem - 1) / c >= 0) by {
        lemma_div_is_ordered(0, rem - 1, c);
    }
    assert((rem - 1) / c <= rem - 1) by (nonlinear_arith)
        requires
            rem - 1 >= 0,
            c >= 1,
    ;
    assert(c * cs == c * ((rem - 1) / c) + c) by (nonlinear_arith)
        requires
            cs == (rem - 1) / c + 1,
    ;
}

/// Partition the remaining range `[start_pos, total_size - 1]` into
/// contiguous chunks of `chunk_size_spec` bytes each, the last clipped to
/// the end of the resource. The chunks start at consecutive multiples of the
/// chunk size, all start below the total, the last ends exactly at the last
/// byte, and at most `concurrent` chunks are produced.
pub fn chunk_plan(start_pos: u64, total_size: u64, concurrent: usize) -> (r: Vec<(u64, u64)>)
    requires
        start_pos < total_size,
        concurrent >= 1,
    ensures
        ({
            let cs = chunk_size_spec(start_pos as int, total_size as int, concurrent as int);
            &&& r@.len() >= 1
            &&& r@.len() <= concurrent
            &&& forall|k: int|
                0 <= k < r@.len() ==> (#[trigger] r@[k]).0 == start_pos + k * cs
            &&& forall|k: int| 0 <= k < r@.len() ==> (#[trigger] r@[k]).0 < total_size
            &&& forall|k: int|
                0 <= k < r@.len() ==> (#[trigger] r@[k]).1 == chunk_end_spec(
                    r@[k].0 as int,
                    cs,
                    total_size as int,
                )
            &&& r@[r@.len() - 1].1 == total_size - 1
        }),
{
    let ghost csi = chunk_size_spec(start_pos as int, total_size as int, concurrent as int);
    proof {
        lemma_chunk_size_bounds(start_pos as int, total_size as int, concurrent as int);
    }
    let remaining = total_size - start_pos;
    let cs: u64 = (remaining - 1) / (concurrent as u64) + 1;
    let mut plan: Vec<(u64, u64)> = Vec::new();
    let mut cur: u64 = start_pos;
    proof {
        assert(plan@.len() * csi == 0) by (nonlinear_arith)
            requires
                plan@.len() == 0,
        ;
    }
    loop
        invariant_except_break
            cur < total_size,
            cur as int == start_pos + plan@.len() * csi,
        invariant
            start_pos < total_size,
            concurrent >= 1,
            cs as int == csi,
            1 <= csi <= total_size - start_pos,
            forall|k: int| 0 <= k < plan@.len() ==> (#[trigger] plan@[k]).0 < total_size,
            forall|k: int|
                0 <= k < plan@.len() ==> (#[trigger] plan@[k]).0 == start_pos + k * csi,
            forall|k: int|
                0 <= k < plan@.len() ==> (#[trigger] plan@[k]).1 == chunk_end_spec(
                    plan@[k].0 as int,
                    csi,
                    total_size as int,
                ),
        ensures
            plan@.len() >= 1,
            plan@[plan@.len() - 1].1 == total_size - 1,
        decreases total_size - cur,
    {
        let end: u64 = if total_size - 1 - cur < cs - 1 {
            total_size - 1
        } else {
            cur + (cs - 1)
        };
        let ghost old_len = plan@.len();
        plan.push((cur, end));
        if end == total_size - 1 {
            break ;
        }
        proof {
            assert(start_pos + (old_len + 1) * csi == start_pos + old_len * csi + csi)
                by (nonlinear_arith);
        }
        cur = end + 1;
    }
    proof {
        let len = plan@.len() as int;
        assert(plan@[len - 1].0 == start_pos + (len - 1) * csi);
        if len > concurrent {
            lemma_mul_inequality(concurrent as int, len - 1, csi);
            assert(concurrent * csi >= total_size - start_pos);
            assert(plan@[len - 1].0 >= total_size);
        }
    }
    plan
}

/// Whether byte offset `off` falls inside some chunk of the plan.
pub open spec fn covered(plan: Seq<(u64, u64)>, off: int) -> bool {
    exists|k: int| 0 <= k < plan.len() && (#[trigger] plan[k]).0 <= off <= plan[k].1
}

/// The chunks of a plan with the shape `chunk_plan` guarantees lie inside
/// the remaining range, are pairwise disjoint and in increasing order, and
/// together cover every byte of `[start, total - 1]` with no gap: each
/// offset of the remaining range falls into exactly one chunk.
pub proof fn lemma_chunk_plan_covers(plan: Seq<(u64, u64)>, start: int, total: int, c: int)
    requires
        0 <= start < total,
        c >= 1,
        plan.len() >= 1,
        forall|k: int|
            0 <= k < plan.len() ==> (#[trigger] plan[k]).0 == start + k * chunk_size_spec(
                start,
                total,
                c,
            ),
        forall|k: int| 0 <= k < plan.len() ==> (#[trigger] plan[k]).0 < total,
        forall|k: int|
            0 <= k < plan.len() ==> (#[trigger] plan[k]).1 == chunk_end_spec(
                plan[k].0 as int,
                chunk_size_spec(start, total, c),
                total,
            ),
        plan[plan.len() - 1].1 == total - 1,
    ensures
        forall|k: int|
            0 <= k < plan.len() ==> start <= (#[trigger] plan[k]).0 <= plan[k].1 < total,
        forall|k1: int, k2: int|
            0 <= k1 < k2 < plan.len() ==> (#[trigger] plan[k1]).1 < (#[trigger] plan[k2]).0,
        forall|off: int| start <= off < total ==> #[trigger] covered(plan, off),
{
    let cs = chunk_size_spec(start, total, c);
    lemma_chunk_size_bounds(start, total, c);
    assert forall|k: int| 0 <= k < plan.len() implies start <= (#[trigger] plan[k]).0
        <= plan[k].1 < total by {
        lemma_mul_nonnegative(k, cs);
    }
    assert forall|k1: int, k2: int| 0 <= k1 < k2 < plan.len() implies (#[trigger] plan[k1]).1
        < (#[trigger] plan[k2]).0 by {
        lemma_mul_inequality(k1 + 1, k2, cs);
        assert((k1 + 1) * cs == k1 * cs + cs) by (nonlinear_arith);
    }
    let len = plan.len() as int;
    assert forall|off: int| start <= off < total implies #[trigger] covered(plan, off) by {
        let k = (off - start) / cs;
        lemma_fundamental_div_mod(off - start, cs);
        assert((off - start) % cs < cs && (off - start) % cs >= 0) by (nonlinear_arith)
            requires
                off - start >= 0,
                cs >= 1,
        ;
        lemma_div_is_ordered(0, off - start, cs);
        assert(k * cs <= off - start < k * cs + cs) by (nonlinear_arith)
            requires
                off - start == cs * k + (off - start) % cs,
                0 <= (off - start) % cs < cs,
        ;
        assert((len - 1 + 1) * cs == (len - 1) * cs + cs) by (nonlinear_arith);
        assert(plan[len - 1].1 <= plan[len - 1].0 + cs - 1);
        assert(total <= start + len * cs);
        if k >= len {
            lemma_mul_inequality(len, k, cs);
            assert(off >= start + k * cs);
            assert(false);
        }
        assert(0 <= k < plan.len());
        assert(plan[k].0 <= off <= plan[k].1);
    }
}

/// Bookkeeping of consecutive failed attempts on one chunk. A budget of
/// zero means unbounded retries; a positive budget allows exactly that many
/// consecutive failures before the chunk gives up.
pub struct RetryPolicy {
    pub budget: usize,
    pub failures: usize,
}

/// Whether an attempt is still allowed after `failures` consecutive
/// failures under `budget`: always with an unbounded budget, and otherwise
/// only while the failure count is below the budget.
pub open spec fn retry_decision(failures: int, budget: int) -> bool {
    budget == 0 || failures < budget
}

impl RetryPolicy {
    /// The failure count never passes a positive budget.
    pub open spec fn wf(self) -> bool {
        self.budget > 0 ==> self.failures <= self.budget
    }

    /// A fresh policy with no failures recorded.
    pub fn new(budget: usize) -> (r: RetryPolicy)
        ensures
            r.budget == budget,
            r.failures == 0,
            r.wf(),
    {
        RetryPolicy { budget, failures: 0 }
    }

    /// Record one failed attempt and report whether another attempt is
    /// allowed. With a positive budget the count grows by one and retrying
    /// stops as soon as the count reaches the budget; with an unbounded
    /// budget retrying never stops.
    pub fn on_failure(&mut self) -> (retry: bool)
        requires
            old(self).wf(),
            old(self).budget > 0 ==> old(self).failures < old(self).budget,
        ensures
            final(self).budget == old(self).budget,
            old(self).budget > 0 ==> final(self).failures == old(self).failures + 1,
            retry == retry_decision(final(self).failures as int, final(self).budget as int),
            final(self).wf(),
    {
        if self.budget == 0 {
            if self.failures < usize::MAX {
                self.failures = self.failures + 1;
            }
            true
        } else {
            self.failures = self.failures + 1;
            self.failures < self.budget
        }
    }
}

/// With a positive budget, every failure count below the budget still
/// allows a retry and the count equal to the budget does not, so a chunk
/// gives up after exactly `budget` consecutive failures; with a budget of
/// zero no failure count ever stops the retrying.
pub proof fn lemma_retry_budget(budget: int, failures: int)
    requires
        0 <= failures,
    ensures
        budget > 0 && failures < budget ==> retry_decision(failures, budget),
        budget > 0 && failures >= budget ==> !retry_decision(failures, budget),
        budget == 0 ==> retry_decision(failures, budget),
{
}

/// What one probing request established about the resource, with the
/// connection details kept for display.
pub struct DownloadMetadata {
    pub hostname: String,
    pub port: String,
    pub server_ip: String,
    pub content_type: String,
    pub status_code: u16,
    pub status_text: String,
    pub total_size: Option<u64>,
}

impl DownloadMetadata {
    /// The reported length is only trusted when no content encoding is
    /// present: an encoded body makes the probing request's length
    /// unreliable, so such a resource is treated as having unknown size.
    pub open spec fn trusted_size_spec(content_length: Option<u64>, has_encoding: bool) -> Option<
        u64,
    > {
        if has_encoding {
            None
        } else {
            content_length
        }
    }

    /// Assemble the metadata of a resource from the probing request's
    /// results, trusting the reported length only without content encoding.
    pub fn assemble(
        hostname: String,
        port: String,
        server_ip: String,
        content_type: String,
        status_code: u16,
        status_text: String,
        content_length: Option<u64>,
        has_encoding: bool,
    ) -> (r: DownloadMetadata)
        ensures
            r.hostname == hostname,
            r.port == port,
            r.server_ip == server_ip,
            r.content_type == content_type,
            r.status_code == status_code,
            r.status_text == status_text,
            r.total_size == Self::trusted_size_spec(content_length, has_encoding),
            has_encoding ==> r.total_size is None,
    {
        let total_size = if has_encoding {
            None
        } else {
            content_length
        };
        DownloadMetadata {
            hostname,
            port,
            server_ip,
            content_type,
            status_code,
            status_text,
            total_size,
        }
    }
}

/// The host to display for a URL: its host component, or "unknown" when
/// the URL does not parse or has no host.
pub fn get_hostname(url: &str) -> (r: String)
    ensures
        r@ == match crate::urlinfo::host_of_url(url@) {
            Some(h) => h,
            None => "unknown"@,
        },
{
    match crate::urlinfo::url_host(url) {
        Some(h) => h,
        None => "unknown".to_owned(),
    }
}

/// The default port of a scheme, as text: 443 for https, 80 for http, and
/// "unknown" for any other scheme or for a string that is no URL.
pub open spec fn port_for_scheme_spec(scheme: Option<Seq<char>>) -> Seq<char> {
    match scheme {
        Some(s) => if s == "https"@ {
            "443"@
        } else if s == "http"@ {
            "80"@
        } else {
            "unknown"@
        },
        None => "unknown"@,
    }
}

/// The port to display for a URL, from its scheme alone.
pub fn get_port(url: &str) -> (r: String)
    ensures
        r@ == port_for_scheme_spec(crate::urlinfo::scheme_of_url(url@)),
{
    match crate::urlinfo::url_scheme(url) {
        Some(s) => {
            if crate::strutil::str_eq(s.as_str(), "https") {
                "443".to_owned()
            } else if crate::strutil::str_eq(s.as_str(), "http") {
                "80".to_owned()
            } else {
                "unknown".to_owned()
            }
        },
        None => "unknown".to_owned(),
    }
}

/// The three lines of the connection banner: the timestamp and URL, the
/// resolving line, and the connecting line.
pub open spec fn connection_banner_spec(
    ts: Seq<char>,
    url: Seq<char>,
    host: Seq<char>,
    ip: Seq<char>,
    port: Seq<char>,
) -> Seq<Seq<char>> {
    seq![
        "--"@ + ts + "--  "@ + url,
        "Resolving "@ + host + " ("@ + host + ")... "@ + ip,
        "Connecting to "@ + host + " ("@ + host + ")|"@ + ip + "|:"@ + port + "... connected."@,
    ]
}

/// Build the connection banner for display.
pub fn connection_banner(ts: &str, url: &str, host: &str, ip: &str, port: &str) -> (r: Vec<
    String,
>)
    ensures
        r@.len() == 3,
        r@[0]@ == connection_banner_spec(ts@, url@, host@, ip@, port@)[0],
        r@[1]@ == connection_banner_spec(ts@, url@, host@, ip@, port@)[1],
        r@[2]@ == connection_banner_spec(ts@, url@, host@, ip@, port@)[2],
{
    proof {
        reveal_strlit("--");
        reveal_strlit("--  ");
        reveal_strlit("Resolving ");
        reveal_strlit(" (");
        reveal_strlit(")... ");
        reveal_strlit("Connecting to ");
        reveal_strlit(")|");
        reveal_strlit("|:");
        reveal_strlit("... connected.");
    }
    let mut l0 = "--".to_owned();
    l0.append(ts);
    l0.append("--  ");
    l0.append(url);
    let mut l1 = "Resolving ".to_owned();
    l1.append(host);
    l1.append(" (");
    l1.append(host);
    l1.append(")... ");
    l1.append(ip);
    let mut l2 = "Connecting to ".to_owned();
    l2.append(host);
    l2.append(" (");
    l2.append(host);
    l2.append(")|");
    l2.append(ip);
    l2.append("|:");
    l2.append(port);
    l2.append("... connected.");
    let mut r: Vec<String> = Vec::new();
    r.push(l0);
    r.push(l1);
    r.push(l2);
    r
}

/// The length line of the response banner: the byte count with its
/// human-readable form and the content type, or "unspecified" when the
/// total is unknown.
pub open spec fn length_line_spec(total_size: Option<u64>, content_type: Seq<char>) -> Seq<
    char,
> {
    match total_size {
        Some(size) => "Length: "@ + dec_str(size as int) + " ("@ + crate::formatter::format_bytes_spec(
            size as int,
        ) + ") ["@ + content_type + "]"@,
        None => "Length: unspecified ["@ + content_type + "]"@,
    }
}

/// The three lines of the response banner: the status line, the length
/// line, and the destination line.
pub open spec fn response_banner_spec(
    status_code: int,
    status_text: Seq<char>,
    total_size: Option<u64>,
    content_type: Seq<char>,
    save_target: Seq<char>,
) -> Seq<Seq<char>> {
    seq![
        "HTTP request sent, awaiting response... "@ + dec_str(status_code) + " "@ + status_text,
        length_line_spec(total_size, content_type),
        "Saving to: '"@ + save_target + "'"@,
    ]
}

/// Build the response banner for display.
pub fn response_banner(
    status_code: u16,
    status_text: &str,
    total_size: Option<u64>,
    content_type: &str,
    save_target: &str,
) -> (r: Vec<String>)
    ensures
        r@.len() == 3,
        r@[0]@ == response_banner_spec(
            status_code as int,
            status_text@,
            total_size,
            content_type@,
            save_target@,
        )[0],
        r@[1]@ == response_banner_spec(
            status_code as int,
            status_text@,
            total_size,
            content_type@,
            save_target@,
        )[1],
        r@[2]@ == response_banner_spec(
            status_code as int,
            status_text@,
            total_size,
            content_type@,
            save_target@,
        )[2],
{
    proof {
        reveal_strlit("HTTP request sent, awaiting response... ");
        reveal_strlit(" ");
        reveal_strlit("Length: ");
        reveal_strlit(" (");
        reveal_strlit(") [");
        reveal_strlit("]");
        reveal_strlit("Length: unspecified [");
        reveal_strlit("Saving to: '");
        reveal_strlit("'");
    }
    let mut l0 = "HTTP request sent, awaiting response... ".to_owned();
    let code = crate::formatter::u64_to_string(status_code as u64);
    l0.append(code.as_str());
    l0.append(" ");
    l0.append(status_text);
    let l1: String = match total_size {
        Some(size) => {
            let mut l = "Length: ".to_owned();
            let num = crate::formatter::u64_to_string(size);
            l.append(num.as_str());
            l.append(" (");
            let human = crate::formatter::format_bytes_wget(size);
            l.append(human.as_str());
            l.append(") [");
            l.append(content_type);
            l.append("]");
            l
        },
        None => {
            let mut l = "Length: unspecified [".to_owned();
            l.append(content_type);
            l.append("]");
            l
        },
    };
    let mut l2 = "Saving to: '".to_owned();
    l2.append(save_target);
    l2.append("'");
    let mut r: Vec<String> = Vec::new();
    r.push(l0);
    r.push(l1);
    r.push(l2);
    r
}

/// The speed shown in the final summary: scaled to whole, kibi- or
/// mebibytes per second with one decimal place and a space before the
/// unit.
pub open spec fn summary_speed_spec(bps: int) -> Seq<char> {
    if bps >= crate::formatter::MIB {
        crate::formatter::tenths_str(
            crate::formatter::scaled_tenths(bps, crate::formatter::MIB as int),
        ) + " MB/s"@
    } else if bps >= crate::formatter::KIB {
        crate::formatter::tenths_str(
            crate::formatter::scaled_tenths(bps, crate::formatter::KIB as int),
        ) + " KB/s"@
    } else {
        crate::formatter::tenths_str(bps * 10) + " B/s"@
    }
}

/// Format the speed for the final summary line.
pub fn summary_speed(bps: u64) -> (r: String)
    ensures
        r@ == summary_speed_spec(bps as int),
{
    proof {
        reveal_strlit(" MB/s");
        reveal_strlit(" KB/s");
        reveal_strlit(" B/s");
    }
    if bps >= crate::formatter::MIB {
        let mut s = crate::formatter::format_tenths(
            crate::formatter::scale_to_tenths(bps, crate::formatter::MIB),
        );
        s.append(" MB/s");
        s
    } else if bps >= crate::formatter::KIB {
        let mut s = crate::formatter::format_tenths(
            crate::formatter::scale_to_tenths(bps, crate::formatter::KIB),
        );
        s.append(" KB/s");
        s
    } else {
        let mut s = crate::formatter::format_tenths(bps * 10);
        s.append(" B/s");
        s
    }
}

/// The final summary line: the timestamp, the speed, the saved name, and
/// the byte counts written and expected.
pub open spec fn summary_line_spec(
    ts: Seq<char>,
    speed: Seq<char>,
    name: Seq<char>,
    actual: int,
    total: int,
) -> Seq<char> {
    ts + " ("@ + speed + ") - '"@ + name + "' saved ["@ + dec_str(actual) + "/"@ + dec_str(
        total,
    ) + "]"@
}

/// Build the final summary line of a completed transfer.
pub fn summary_line(ts: &str, speed: &str, name: &str, actual: u64, total: u64) -> (r: String)
    ensures
        r@ == summary_line_spec(ts@, speed@, name@, actual as int, total as int),
{
    proof {
        reveal_strlit(" (");
        reveal_strlit(") - '");
        reveal_strlit("' saved [");
        reveal_strlit("/");
        reveal_strlit("]");
    }
    let mut s = ts.to_owned();
    s.append(" (");
    s.append(speed);
    s.append(") - '");
    s.append(name);
    s.append("' saved [");
    let a = crate::formatter::u64_to_string(actual);
    s.append(a.as_str());
    s.append("/");
    let t = crate::formatter::u64_to_string(total);
    s.append(t.as_str());
    s.append("]");
    s
}

/// The short summary line used when the byte total is the byte count
/// itself: the timestamp, the speed, the target, and the bytes written.
pub open spec fn simple_summary_line_spec(
    ts: Seq<char>,
    speed: Seq<char>,
    target: Seq<char>,
    bytes: int,
) -> Seq<char> {
    ts + " ("@ + speed + ") - '"@ + target + "' saved ["@ + dec_str(bytes) + "]"@
}

/// Build the summary line of a transfer whose size was not declared.
pub fn simple_summary_line(ts: &str, speed: &str, target: &str, bytes: u64) -> (r: String)
    ensures
        r@ == simple_summary_line_spec(ts@, speed@, target@, bytes as int),
{
    proof {
        reveal_strlit(" (");
        reveal_strlit(") - '");
        reveal_strlit("' saved [");
        reveal_strlit("]");
    }
    let mut s = ts.to_owned();
    s.append(" (");
    s.append(speed);
    s.append(") - '");
    s.append(target);
    s.append("' saved [");
    let b = crate::formatter::u64_to_string(bytes);
    s.append(b.as_str());
    s.append("]");
    s
}

/// The candidate name an existing output file is renamed around: the
/// original name with a dot and a counter appended.
pub fn numbered_name(base: &str, counter: u64) -> (r: String)
    ensures
        r@ == base@ + seq!['.'] + dec_str(counter as int),
{
    proof {
        reveal_strlit(".");
    }
    let mut s = base.to_owned();
    s.append(".");
    let num = crate::formatter::u64_to_string(counter);
    s.append(num.as_str());
    proof {
        assert(s@ =~= base@ + seq!['.'] + dec_str(counter as int));
    }
    s
}

} // verus!
