//! The error taxonomy of the download engine. Transport and I/O failures
//! reach the library as plain message strings; the variants keep the
//! distinction the engine cares about.

use vstd::prelude::*;

verus! {

/// Why a download failed.
#[derive(Debug, Clone)]
pub enum MwgetError {
    /// A transport-level or HTTP-level failure, with its message.
    Http(String),
    /// A local file failure, with its message.
    Io(String),
    /// The target URL could not be understood.
    InvalidUrl(String),
    /// The transfer itself failed.
    DownloadFailed(String),
    /// Writing the output file failed.
    FileWrite(String),
    /// A network-level failure.
    Network(String),
    /// The server does not honour byte-range requests.
    RangeNotSupported,
    /// The reported content length could not be used.
    InvalidContentLength,
    /// No URL was given.
    UrlRequired,
    /// A command-line argument could not be used.
    InvalidArgument(String),
}

/// What `MwgetError::message` returns: a fixed description per variant,
/// with the carried detail appended where the variant holds one.
pub open spec fn message_spec(e: MwgetError) -> Seq<char> {
    match e {
        MwgetError::Http(m) => "HTTP error: "@ + m@,
        MwgetError::Io(m) => "IO error: "@ + m@,
        MwgetError::InvalidUrl(m) => "Invalid URL: "@ + m@,
        MwgetError::DownloadFailed(m) => "Download failed: "@ + m@,
        MwgetError::FileWrite(m) => "File write error: "@ + m@,
        MwgetError::Network(m) => "Network error: "@ + m@,
        MwgetError::RangeNotSupported => "Server does not support range requests"@,
        MwgetError::InvalidContentLength => "Invalid content length"@,
        MwgetError::UrlRequired => "URL is required"@,
        MwgetError::InvalidArgument(m) => "Invalid argument: "@ + m@,
    }
}

impl MwgetError {
    /// The human-readable description of the error.
    pub fn message(&self) -> (r: String)
        ensures
            r@ == message_spec(*self),
    {
        match self {
            MwgetError::Http(m) => {
                let mut s = "HTTP error: ".to_owned();
                s.append(m.as_str());
                s
            },
            MwgetError::Io(m) => {
                let mut s = "IO error: ".to_owned();
                s.append(m.as_str());
                s
            },
            MwgetError::InvalidUrl(m) => {
                let mut s = "Invalid URL: ".to_owned();
                s.append(m.as_str());
                s
            },
            MwgetError::DownloadFailed(m) => {
                let mut s = "Download failed: ".to_owned();
                s.append(m.as_str());
                s
            },
            MwgetError::FileWrite(m) => {
                let mut s = "File write error: ".to_owned();
                s.append(m.as_str());
                s
            },
            MwgetError::Network(m) => {
                let mut s = "Network error: ".to_owned();
                s.append(m.as_str());
                s
            },
            MwgetError::RangeNotSupported => "Server does not support range requests".to_owned(),
            MwgetError::InvalidContentLength => "Invalid content length".to_owned(),
            MwgetError::UrlRequired => "URL is required".to_owned(),
            MwgetError::InvalidArgument(m) => {
                let mut s = "Invalid argument: ".to_owned();
                s.append(m.as_str());
                s
            },
        }
    }
}

} // verus!
