//! The command-line options and their translation into a download
//! configuration: a URL is required and given a scheme when it has none,
//! custom headers are split at their first colon and trimmed, and a
//! referer option becomes one more header. Parsing the command line itself
//! happens outside the library, which receives the options as plain
//! values.

use vstd::prelude::*;
use crate::config::DownloadConfig;
use crate::error::MwgetError;
use crate::strutil::{
    contains_substr,
    contains_substr_spec,
    find_char,
    first_index_of,
    trim_spec,
    trim_str,
};

verus! {

/// The options of one invocation, as the command line hands them over.
#[derive(Debug, Clone)]
pub struct Cli {
    pub version: bool,
    pub url: Option<String>,
    pub output: Option<String>,
    pub continue_download: bool,
    pub timeout: u64,
    pub tries: usize,
    pub concurrent: usize,
    pub quiet: bool,
    pub verbose: bool,
    pub user_agent: Option<String>,
    pub header: Vec<String>,
    pub referer: Option<String>,
    pub no_check_certificate: bool,
    pub recursive: bool,
    pub no_parent: bool,
}

/// The URL a bare name turns into: left alone when it already carries a
/// scheme separator, prefixed with "http://" otherwise.
pub open spec fn normalized_url_spec(u: Seq<char>) -> Seq<char> {
    if contains_substr_spec(u, "://"@) {
        u
    } else {
        "http://"@ + u
    }
}

/// What one header option yields: the parts before and after its first
/// colon, each trimmed of whitespace; nothing when it holds no colon.
pub open spec fn parse_header_spec(h: Seq<char>) -> Option<(Seq<char>, Seq<char>)> {
    let i = first_index_of(h, ':');
    if i >= 0 {
        Some((trim_spec(h.subrange(0, i)), trim_spec(h.subrange(i + 1, h.len() as int))))
    } else {
        None
    }
}

/// The header pairs a list of header options yields, in order, options
/// without a colon dropped.
pub open spec fn headers_list_spec(hs: Seq<String>) -> Seq<(Seq<char>, Seq<char>)>
    decreases hs.len(),
{
    if hs.len() == 0 {
        Seq::empty()
    } else {
        headers_list_spec(hs.drop_last()) + match parse_header_spec(hs[hs.len() - 1]@) {
            Some(p) => seq![p],
            None => Seq::empty(),
        }
    }
}

/// The character-level view of a list of header pairs.
pub open spec fn pairs_view(v: Seq<(String, String)>) -> Seq<(Seq<char>, Seq<char>)> {
    Seq::new(v.len(), |i: int| (v[i].0@, v[i].1@))
}

/// Split one header option at its first colon and trim both parts.
fn parse_header(h: &str) -> (r: Option<(String, String)>)
    ensures
        match r {
            Some(p) => parse_header_spec(h@) == Some((p.0@, p.1@)),
            None => parse_header_spec(h@) is None,
        },
{
    let n = h.unicode_len();
    match find_char(h, ':') {
        Some(i) => {
            proof {
                crate::strutil::lemma_first_index_of(h@, ':');
                assert(first_index_of(h@, ':') >= 0);
                assert(i as int == first_index_of(h@, ':'));
                assert(i < n);
            }
            let key = trim_str(h.substring_char(0, i));
            let val = trim_str(h.substring_char(i + 1, n));
            proof {
                assert(h@.subrange(0, i as int) =~= h@.subrange(0, first_index_of(h@, ':')));
                assert(h@.subrange(i + 1, n as int) =~= h@.subrange(
                    first_index_of(h@, ':') + 1,
                    h@.len() as int,
                ));
            }
            Some((key, val))
        },
        None => None,
    }
}

impl Cli {
    /// Turn the options into a download configuration: fail without a
    /// URL; give a bare URL an "http" scheme; split and trim the header
    /// options, dropping malformed ones; append the referer, when given,
    /// as one more header; and fall back to the wget-like user agent.
    pub fn to_config(self) -> (r: Result<DownloadConfig, MwgetError>)
        ensures
            self.url is None ==> r == Result::<DownloadConfig, MwgetError>::Err(
                MwgetError::UrlRequired,
            ),
            self.url is Some ==> r is Ok && ({
                let c = r->Ok_0;
                &&& c.url@ == normalized_url_spec(self.url->0@)
                &&& c.output == self.output
                &&& c.continue_download == self.continue_download
                &&& c.timeout == self.timeout
                &&& c.retry == self.tries
                &&& c.concurrent == self.concurrent
                &&& c.quiet == self.quiet
                &&& c.verbose == self.verbose
                &&& c.user_agent@ == match self.user_agent {
                    Some(u) => u@,
                    None => "wget/1.21.3"@,
                }
                &&& pairs_view(c.headers@) == headers_list_spec(self.header@) + match self
                    .referer {
                    Some(rf) => seq![("Referer"@, rf@)],
                    None => Seq::<(Seq<char>, Seq<char>)>::empty(),
                }
            }),
    {
        let Cli {
            version: _,
            url,
            output,
            continue_download,
            timeout,
            tries,
            concurrent,
            quiet,
            verbose,
            user_agent,
            header,
            referer,
            no_check_certificate: _,
            recursive: _,
            no_parent: _,
        } = self;
        let url = match url {
            Some(u) => u,
            None => {
                return Err(MwgetError::UrlRequired);
            },
        };
        let url: String = if contains_substr(url.as_str(), "://") {
            url
        } else {
            proof {
                reveal_strlit("http://");
            }
            let mut s = "http://".to_owned();
            s.append(url.as_str());
            s
        };
        let mut headers: Vec<(String, String)> = Vec::new();
        let m = header.len();
        let mut i: usize = 0;
        proof {
            assert(header@.take(0) =~= Seq::<String>::empty());
            assert(pairs_view(headers@) =~= headers_list_spec(header@.take(0)));
        }
        while i < m
            invariant
                i <= m,
                m == header@.len(),
                pairs_view(headers@) == headers_list_spec(header@.take(i as int)),
            decreases m - i,
        {
            let ghost old_pairs = headers@;
            proof {
                assert(header@.take(i + 1).drop_last() =~= header@.take(i as int));
                assert(header@.take(i + 1)[i as int] == header@[i as int]);
            }
            match parse_header(header[i].as_str()) {
                Some(p) => {
                    headers.push(p);
                    proof {
                        assert(pairs_view(headers@) =~= headers_list_spec(
                            header@.take(i + 1),
                        ));
                    }
                },
                None => {
                    proof {
                        assert(pairs_view(headers@) =~= headers_list_spec(
                            header@.take(i + 1),
                        ));
                    }
                },
            }
            i = i + 1;
        }
        proof {
            assert(header@.take(m as int) =~= header@);
        }
        match referer {
            Some(rf) => {
                headers.push(("Referer".to_owned(), rf));
                proof {
                    assert(pairs_view(headers@) =~= headers_list_spec(header@) + seq![
                        ("Referer"@, headers@[headers@.len() - 1].1@),
                    ]);
                }
            },
            None => {
                proof {
                    assert(pairs_view(headers@) =~= headers_list_spec(header@)
                        + Seq::<(Seq<char>, Seq<char>)>::empty());
                }
            },
        }
        let user_agent = match user_agent {
            Some(u) => u,
            None => "wget/1.21.3".to_owned(),
        };
        Ok(
            DownloadConfig {
                url,
                output,
                continue_download,
                timeout,
                retry: tries,
                concurrent,
                quiet,
                verbose,
                user_agent,
                headers,
            },
        )
    }
}

} // verus!
