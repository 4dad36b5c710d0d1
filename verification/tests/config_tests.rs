use mwget::cli::Cli;
use mwget::config::DownloadConfig;
use mwget::error::MwgetError;
use mwget::http::CachedHead;

fn plain_cli() -> Cli {
    Cli {
        version: false,
        url: Some("http://example.com/pkg/file.tar.gz".to_string()),
        output: None,
        continue_download: false,
        timeout: 60,
        tries: 20,
        concurrent: 4,
        quiet: false,
        verbose: false,
        user_agent: None,
        header: Vec::new(),
        referer: None,
        no_check_certificate: false,
        recursive: false,
        no_parent: false,
    }
}

#[test]
fn to_config_requires_a_url() {
    let mut cli = plain_cli();
    cli.url = None;
    let r = cli.to_config();
    assert!(matches!(r, Err(MwgetError::UrlRequired)));
}

#[test]
fn to_config_adds_missing_scheme() {
    let mut cli = plain_cli();
    cli.url = Some("example.com/f".to_string());
    let c = cli.to_config().unwrap();
    assert_eq!(c.url, "http://example.com/f");
    let mut cli2 = plain_cli();
    cli2.url = Some("https://example.com/f".to_string());
    let c2 = cli2.to_config().unwrap();
    assert_eq!(c2.url, "https://example.com/f");
}

#[test]
fn to_config_parses_headers_and_referer() {
    let mut cli = plain_cli();
    cli.header = vec![
        "X-One:  alpha ".to_string(),
        "broken-no-colon".to_string(),
        "X-Two:a:b".to_string(),
    ];
    cli.referer = Some("http://example.com/".to_string());
    let c = cli.to_config().unwrap();
    assert_eq!(
        c.headers,
        vec![
            ("X-One".to_string(), "alpha".to_string()),
            ("X-Two".to_string(), "a:b".to_string()),
            ("Referer".to_string(), "http://example.com/".to_string()),
        ]
    );
}

#[test]
fn to_config_keeps_numbers_and_agent() {
    let mut cli = plain_cli();
    cli.timeout = 7;
    cli.tries = 2;
    cli.concurrent = 9;
    cli.user_agent = Some("probe/1".to_string());
    let c = cli.to_config().unwrap();
    assert_eq!(c.timeout, 7);
    assert_eq!(c.retry, 2);
    assert_eq!(c.concurrent, 9);
    assert_eq!(c.user_agent, "probe/1");
    let d = plain_cli().to_config().unwrap();
    assert_eq!(d.user_agent, "wget/1.21.3");
}

#[test]
fn default_config_values() {
    let c = DownloadConfig::default();
    assert_eq!(c.timeout, 60);
    assert_eq!(c.retry, 20);
    assert_eq!(c.concurrent, 4);
    assert!(!c.continue_download);
    assert!(!c.quiet);
    assert_eq!(c.user_agent, "wget/1.21.3");
    assert!(c.headers.is_empty());
}

#[test]
fn output_to_stdout_only_for_dash() {
    let mut c = DownloadConfig::default();
    assert!(!c.output_to_stdout());
    c.output = Some("-".to_string());
    assert!(c.output_to_stdout());
    c.output = Some("file".to_string());
    assert!(!c.output_to_stdout());
}

#[test]
fn filename_from_output_or_url() {
    let mut c = DownloadConfig::default();
    c.url = "http://example.com/pkg/file.tar.gz".to_string();
    assert_eq!(c.get_filename(), "file.tar.gz");
    c.url = "http://example.com/".to_string();
    assert_eq!(c.get_filename(), "index.html");
    c.url = "not a url".to_string();
    assert_eq!(c.get_filename(), "index.html");
    c.output = Some("dir/sub/out.bin".to_string());
    assert_eq!(c.get_filename(), "out.bin");
    c.output = Some("trailing/".to_string());
    assert_eq!(c.get_filename(), "download");
}

fn head_with(headers: Vec<(&str, &str)>) -> CachedHead {
    let hs = headers
        .into_iter()
        .map(|(k, v)| (k.to_string(), v.to_string()))
        .collect();
    CachedHead::new(200, "OK".to_string(), hs)
}

#[test]
fn content_length_parses_decimal() {
    assert_eq!(head_with(vec![("content-length", "1234")]).get_content_length(), Some(1234));
    assert_eq!(head_with(vec![("content-length", "+99")]).get_content_length(), Some(99));
    assert_eq!(head_with(vec![("content-length", "12x4")]).get_content_length(), None);
    assert_eq!(head_with(vec![("content-length", "")]).get_content_length(), None);
    assert_eq!(
        head_with(vec![("content-length", "99999999999999999999999")]).get_content_length(),
        None
    );
    assert_eq!(head_with(vec![]).get_content_length(), None);
}

#[test]
fn later_header_wins() {
    let h = head_with(vec![("content-length", "1"), ("content-length", "2")]);
    assert_eq!(h.get_content_length(), Some(2));
}

#[test]
fn range_support_from_accept_ranges() {
    assert!(head_with(vec![("accept-ranges", "bytes")]).supports_range());
    assert!(!head_with(vec![("accept-ranges", "none")]).supports_range());
    assert!(!head_with(vec![]).supports_range());
}

#[test]
fn content_type_defaults_to_html() {
    assert_eq!(head_with(vec![("content-type", "text/plain")]).get_content_type(), "text/plain");
    assert_eq!(head_with(vec![]).get_content_type(), "text/html");
}

#[test]
fn content_encoding_presence() {
    assert_eq!(
        head_with(vec![("content-encoding", "gzip")]).get_content_encoding(),
        Some("gzip".to_string())
    );
    assert_eq!(head_with(vec![]).get_content_encoding(), None);
}

#[test]
fn status_info_reads_cache() {
    let h = CachedHead::new(404, "Not Found".to_string(), Vec::new());
    let (code, text) = h.get_status_info();
    assert_eq!(code, 404);
    assert_eq!(text, "Not Found");
}

#[test]
fn error_messages_name_their_cause() {
    assert_eq!(
        MwgetError::Http("boom".to_string()).message(),
        "HTTP error: boom"
    );
    assert_eq!(MwgetError::Io("disk".to_string()).message(), "IO error: disk");
    assert_eq!(
        MwgetError::InvalidUrl("x".to_string()).message(),
        "Invalid URL: x"
    );
    assert_eq!(
        MwgetError::DownloadFailed("y".to_string()).message(),
        "Download failed: y"
    );
    assert_eq!(
        MwgetError::FileWrite("z".to_string()).message(),
        "File write error: z"
    );
    assert_eq!(
        MwgetError::Network("n".to_string()).message(),
        "Network error: n"
    );
    assert_eq!(
        MwgetError::RangeNotSupported.message(),
        "Server does not support range requests"
    );
    assert_eq!(MwgetError::InvalidContentLength.message(), "Invalid content length");
    assert_eq!(MwgetError::UrlRequired.message(), "URL is required");
    assert_eq!(
        MwgetError::InvalidArgument("a".to_string()).message(),
        "Invalid argument: a"
    );
}
