//! The inclusion policy of the recursive crawl, on plain values: whether a
//! discovered link is downloaded, from the hosts, the path segments and
//! the lower-cased path of the link. Fetching pages and extracting links
//! happen outside the library, which is handed the components of each
//! candidate.

use vstd::prelude::*;
use crate::strutil::{contains_substr, contains_substr_spec, ends_with, ends_with_spec, str_eq};

verus! {

/// The character-level view of a list of path segments.
pub open spec fn segs_view(v: Seq<String>) -> Seq<Seq<char>> {
    Seq::new(v.len(), |i: int| v[i]@)
}

/// Whether the link's path does not climb above the base: at least as many
/// segments as the base path without its final name, and matching it
/// segment for segment.
pub open spec fn parent_ok_spec(base: Seq<Seq<char>>, url: Seq<Seq<char>>) -> bool {
    let b = if base.len() > 0 {
        base.drop_last()
    } else {
        base
    };
    url.len() >= b.len() && forall|i: int| 0 <= i < b.len() ==> url[i] == b[i]
}

/// Whether a lower-cased path names a resource the crawl skips: style
/// sheets, scripts, icons and images.
pub open spec fn skip_ext_spec(p: Seq<char>) -> bool {
    ends_with_spec(p, ".css"@) || ends_with_spec(p, ".js"@) || ends_with_spec(p, ".ico"@)
        || ends_with_spec(p, ".png"@) || ends_with_spec(p, ".jpg"@) || ends_with_spec(
        p,
        ".jpeg"@,
    ) || ends_with_spec(p, ".gif"@) || ends_with_spec(p, ".svg"@)
}

/// Whether a discovered link is downloaded: only on the crawl's own host,
/// only below the base directory when climbing is forbidden and both
/// paths have segments, and never for the skipped resource kinds.
pub open spec fn should_download_spec(
    url_host: Option<Seq<char>>,
    root_host: Option<Seq<char>>,
    no_parent: bool,
    base_segs: Option<Seq<Seq<char>>>,
    url_segs: Option<Seq<Seq<char>>>,
    path_lower: Seq<char>,
) -> bool {
    if url_host != root_host {
        false
    } else if no_parent && base_segs is Some && url_segs is Some && !parent_ok_spec(
        base_segs->0,
        url_segs->0,
    ) {
        false
    } else if skip_ext_spec(path_lower) {
        false
    } else {
        true
    }
}

/// Whether the link's segments stay at or below the base directory.
pub fn parent_ok(base: &Vec<String>, url: &Vec<String>) -> (r: bool)
    ensures
        r == parent_ok_spec(segs_view(base@), segs_view(url@)),
{
    let blen: usize = if base.len() > 0 {
        base.len() - 1
    } else {
        0
    };
    if url.len() < blen {
        return false;
    }
    let mut i: usize = 0;
    while i < blen
        invariant
            i <= blen,
            blen == if base@.len() > 0 {
                base@.len() - 1
            } else {
                0
            },
            url@.len() >= blen,
            forall|j: int| 0 <= j < i ==> url@[j]@ == base@[j]@,
        decreases blen - i,
    {
        if !str_eq(base[i].as_str(), url[i].as_str()) {
            proof {
                let b = segs_view(base@).drop_last();
                assert(b[i as int] == base@[i as int]@);
                assert(segs_view(url@)[i as int] == url@[i as int]@);
            }
            return false;
        }
        i = i + 1;
    }
    proof {
        let b = if segs_view(base@).len() > 0 {
            segs_view(base@).drop_last()
        } else {
            segs_view(base@)
        };
        assert forall|j: int| 0 <= j < b.len() implies segs_view(url@)[j] == b[j] by {
            assert(b[j] == base@[j]@);
            assert(segs_view(url@)[j] == url@[j]@);
        }
    }
    true
}

/// Whether a lower-cased path names a resource kind the crawl skips.
pub fn has_skipped_extension(path_lower: &str) -> (r: bool)
    ensures
        r == skip_ext_spec(path_lower@),
{
    ends_with(path_lower, ".css") || ends_with(path_lower, ".js") || ends_with(
        path_lower,
        ".ico",
    ) || ends_with(path_lower, ".png") || ends_with(path_lower, ".jpg") || ends_with(
        path_lower,
        ".jpeg",
    ) || ends_with(path_lower, ".gif") || ends_with(path_lower, ".svg")
}

/// Decide whether a discovered link is downloaded. The path is handed in
/// lower-cased, so that the extension check ignores case as the crawl
/// intends.
pub fn should_download_policy(
    url_host: Option<&str>,
    root_host: Option<&str>,
    no_parent: bool,
    base_segments: Option<&Vec<String>>,
    url_segments: Option<&Vec<String>>,
    path_lower: &str,
) -> (r: bool)
    ensures
        r == should_download_spec(
            match url_host {
                Some(h) => Some(h@),
                None => None,
            },
            match root_host {
                Some(h) => Some(h@),
                None => None,
            },
            no_parent,
            match base_segments {
                Some(v) => Some(segs_view(v@)),
                None => None,
            },
            match url_segments {
                Some(v) => Some(segs_view(v@)),
                None => None,
            },
            path_lower@,
        ),
{
    let hosts_equal: bool = match (url_host, root_host) {
        (Some(a), Some(b)) => str_eq(a, b),
        (None, None) => true,
        _ => false,
    };
    if !hosts_equal {
        return false;
    }
    if no_parent {
        match (base_segments, url_segments) {
            (Some(b), Some(u)) => {
                if !parent_ok(b, u) {
                    return false;
                }
            },
            _ => {},
        }
    }
    if has_skipped_extension(path_lower) {
        return false;
    }
    true
}

/// Whether a reported content type is HTML, so that the crawl looks for
/// links in the body.
pub fn is_html_content_type(content_type: &str) -> (r: bool)
    ensures
        r == contains_substr_spec(content_type@, "text/html"@),
{
    contains_substr(content_type, "text/html")
}

} // verus!
