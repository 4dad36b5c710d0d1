//! The configuration one download run is given, and what follows from it
//! alone: whether output goes to standard output, and the name the saved
//! file gets.

use vstd::prelude::*;
use crate::strutil::{basename, suffix_after_last};
use crate::urlinfo::{path_of_url, url_path};

verus! {

/// The immutable settings of one download run, produced by the
/// command-line layer.
#[derive(Debug, Clone)]
pub struct DownloadConfig {
    pub url: String,
    pub output: Option<String>,
    pub continue_download: bool,
    pub timeout: u64,
    pub retry: usize,
    pub concurrent: usize,
    pub quiet: bool,
    pub verbose: bool,
    pub user_agent: String,
    pub headers: Vec<(String, String)>,
}

impl Default for DownloadConfig {
    /// The defaults of a run: one minute of network timeout, twenty
    /// retries, four connections, and a wget-like user agent.
    fn default() -> (c: DownloadConfig)
        ensures
            c.url@ == Seq::<char>::empty(),
            c.output is None,
            !c.continue_download,
            c.timeout == 60,
            c.retry == 20,
            c.concurrent == 4,
            !c.quiet,
            !c.verbose,
            c.user_agent@ == "wget/1.21.3"@,
            c.headers@.len() == 0,
    {
        DownloadConfig {
            url: String::new(),
            output: None,
            continue_download: false,
            timeout: 60,
            retry: 20,
            concurrent: 4,
            quiet: false,
            verbose: false,
            user_agent: "wget/1.21.3".to_owned(),
            headers: Vec::new(),
        }
    }
}

/// What the saved file is called: the part of the output target after its
/// last slash when an output target is set (or "download" when that part
/// is empty), else the last segment of the URL's path (or "index.html"
/// when the URL does not parse or the segment is empty).
pub open spec fn get_filename_spec(c: DownloadConfig) -> Seq<char> {
    match c.output {
        Some(o) => {
            let b = suffix_after_last(o@, '/');
            if b.len() == 0 {
                "download"@
            } else {
                b
            }
        },
        None => match path_of_url(c.url@) {
            Some(p) => {
                let seg = suffix_after_last(p, '/');
                if seg.len() == 0 {
                    "index.html"@
                } else {
                    seg
                }
            },
            None => "index.html"@,
        },
    }
}

impl DownloadConfig {
    /// Whether output goes to standard output: an output target of "-".
    pub fn output_to_stdout(&self) -> (r: bool)
        ensures
            r == match self.output {
                Some(o) => o@ == "-"@,
                None => false,
            },
    {
        match &self.output {
            Some(o) => crate::strutil::str_eq(o.as_str(), "-"),
            None => false,
        }
    }

    /// The name the saved file gets.
    pub fn get_filename(&self) -> (r: String)
        ensures
            r@ == get_filename_spec(*self),
    {
        match &self.output {
            Some(o) => {
                let b = basename(o.as_str());
                if b.unicode_len() == 0 {
                    "download".to_owned()
                } else {
                    b
                }
            },
            None => {
                match url_path(self.url.as_str()) {
                    Some(p) => {
                        let seg = basename(p.as_str());
                        if seg.unicode_len() == 0 {
                            "index.html".to_owned()
                        } else {
                            seg
                        }
                    },
                    None => "index.html".to_owned(),
                }
            },
        }
    }
}

} // verus!
