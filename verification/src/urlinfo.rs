//! Trusted reading of URL components. Parsing a URL is deterministic in the
//! URL string alone, so each component gets a name that the wrappers' and
//! callers' contracts share; what a name's value is on a given string only
//! the URL parser decides.

use vstd::prelude::*;

verus! {

/// The host component of the URL string `s`, absent when `s` does not
/// parse as a URL or the URL has no host.
pub uninterp spec fn host_of_url(s: Seq<char>) -> Option<Seq<char>>;

/// The scheme component of the URL string `s`, absent when `s` does not
/// parse as a URL.
pub uninterp spec fn scheme_of_url(s: Seq<char>) -> Option<Seq<char>>;

/// The path component of the URL string `s`, absent when `s` does not
/// parse as a URL.
pub uninterp spec fn path_of_url(s: Seq<char>) -> Option<Seq<char>>;

/// Relies on url::Url::parse and url::Url::host_str: the host of a URL is
/// a function of the URL string alone; there is none when the string does
/// not parse or the URL carries no host.
#[verifier::external_body]
pub(crate) fn url_host(s: &str) -> (r: Option<String>)
    ensures
        match r {
            Some(h) => host_of_url(s@) == Some(h@),
            None => host_of_url(s@) is None,
        },
{
    match url::Url::parse(s) {
        Ok(u) => u.host_str().map(|h| h.to_string()),
        Err(_) => None,
    }
}

/// Relies on url::Url::parse and url::Url::scheme: the scheme of a URL is
/// a function of the URL string alone; there is none when the string does
/// not parse.
#[verifier::external_body]
pub(crate) fn url_scheme(s: &str) -> (r: Option<String>)
    ensures
        match r {
            Some(sc) => scheme_of_url(s@) == Some(sc@),
            None => scheme_of_url(s@) is None,
        },
{
    match url::Url::parse(s) {
        Ok(u) => Some(u.scheme().to_string()),
        Err(_) => None,
    }
}

/// Relies on url::Url::parse and url::Url::path: the path of a URL is a
/// function of the URL string alone; there is none when the string does
/// not parse.
#[verifier::external_body]
pub(crate) fn url_path(s: &str) -> (r: Option<String>)
    ensures
        match r {
            Some(p) => path_of_url(s@) == Some(p@),
            None => path_of_url(s@) is None,
        },
{
    match url::Url::parse(s) {
        Ok(u) => Some(u.path().to_string()),
        Err(_) => None,
    }
}

} // verus!
