//! What the probing request establishes about a resource, kept as plain
//! values: the status line and the response headers, with the lookups that
//! later decisions read from them. Issuing the request itself is I/O and
//! happens outside the library; the header names handed in are expected in
//! lower case, as the transport library reports them.

use vstd::prelude::*;
use crate::strutil::{parse_u64, parse_u64_spec, str_eq};

verus! {

/// The cached result of the one probing request: status code, reason text
/// and response headers with lower-case names.
pub struct CachedHead {
    pub status_code: u16,
    pub status_text: String,
    pub headers: Vec<(String, String)>,
}

/// The value of the last header named `name`, or nothing when no header of
/// that name is present. The last occurrence wins, as it does when headers
/// are folded into a map in order.
pub open spec fn header_lookup_spec(hs: Seq<(String, String)>, name: Seq<char>) -> Option<
    Seq<char>,
>
    decreases hs.len(),
{
    if hs.len() == 0 {
        None
    } else if hs[hs.len() - 1].0@ == name {
        Some(hs[hs.len() - 1].1@)
    } else {
        header_lookup_spec(hs.drop_last(), name)
    }
}

/// Look up the value of the header named `name`.
pub fn header_lookup(headers: &Vec<(String, String)>, name: &str) -> (r: Option<String>)
    ensures
        match r {
            Some(v) => header_lookup_spec(headers@, name@) == Some(v@),
            None => header_lookup_spec(headers@, name@) is None,
        },
{
    let n = headers.len();
    let mut j: usize = n;
    proof {
        assert(headers@.take(n as int) =~= headers@);
    }
    while j > 0
        invariant
            j <= n,
            n == headers@.len(),
            header_lookup_spec(headers@, name@) == header_lookup_spec(
                headers@.take(j as int),
                name@,
            ),
        decreases j,
    {
        let pair = &headers[j - 1];
        proof {
            assert(headers@.take(j as int)[j - 1] == headers@[j - 1]);
            assert(headers@.take(j as int).drop_last() =~= headers@.take(j - 1));
        }
        if str_eq(pair.0.as_str(), name) {
            return Some(pair.1.clone());
        }
        j = j - 1;
    }
    proof {
        assert(headers@.take(0) =~= Seq::<(String, String)>::empty());
    }
    None
}

/// What `CachedHead::get_content_length` returns: the last content-length
/// header parsed as a decimal byte count, or nothing when the header is
/// absent or not a number in range.
pub open spec fn content_length_spec(hs: Seq<(String, String)>) -> Option<u64> {
    match header_lookup_spec(hs, "content-length"@) {
        Some(v) => parse_u64_spec(v),
        None => None,
    }
}

/// Whether the accept-ranges header advertises byte-range support: present
/// with any value but "none".
pub open spec fn supports_range_spec(hs: Seq<(String, String)>) -> bool {
    match header_lookup_spec(hs, "accept-ranges"@) {
        Some(v) => v != "none"@,
        None => false,
    }
}

impl CachedHead {
    /// Keep the results of the probing request.
    pub fn new(status_code: u16, status_text: String, headers: Vec<(String, String)>) -> (r:
        CachedHead)
        ensures
            r.status_code == status_code,
            r.status_text == status_text,
            r.headers == headers,
    {
        CachedHead { status_code, status_text, headers }
    }

    /// The resource's byte count as reported by the content-length header,
    /// when that header is present and a decimal number in range.
    pub fn get_content_length(&self) -> (r: Option<u64>)
        ensures
            r == content_length_spec(self.headers@),
    {
        match header_lookup(&self.headers, "content-length") {
            Some(v) => parse_u64(v.as_str()),
            None => None,
        }
    }

    /// Whether the server advertises byte-range support.
    pub fn supports_range(&self) -> (r: bool)
        ensures
            r == supports_range_spec(self.headers@),
    {
        match header_lookup(&self.headers, "accept-ranges") {
            Some(v) => !str_eq(v.as_str(), "none"),
            None => false,
        }
    }

    /// The content-type header's value, or "text/html" when absent.
    pub fn get_content_type(&self) -> (r: String)
        ensures
            match header_lookup_spec(self.headers@, "content-type"@) {
                Some(v) => r@ == v,
                None => r@ == "text/html"@,
            },
    {
        match header_lookup(&self.headers, "content-type") {
            Some(v) => v,
            None => {
                let d = "text/html";
                d.to_owned()
            },
        }
    }

    /// The content-encoding header's value, when one is present.
    pub fn get_content_encoding(&self) -> (r: Option<String>)
        ensures
            match r {
                Some(v) => header_lookup_spec(self.headers@, "content-encoding"@) == Some(v@),
                None => header_lookup_spec(self.headers@, "content-encoding"@) is None,
            },
    {
        header_lookup(&self.headers, "content-encoding")
    }

    /// The cached status code and reason text.
    pub fn get_status_info(&self) -> (r: (u16, String))
        ensures
            r.0 == self.status_code,
            r.1@ == self.status_text@,
    {
        (self.status_code, self.status_text.clone())
    }
}

} // verus!
