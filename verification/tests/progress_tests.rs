use mwget::progress::{
    effective_cols, eta_ms, percent, speed_bps, truncate_string, ProgressTracker,
};
use mwget::recursive::{is_html_content_type, should_download_policy};

#[test]
fn percent_clamps_and_handles_zero_total() {
    assert_eq!(percent(0, 100), 0);
    assert_eq!(percent(50, 100), 50);
    assert_eq!(percent(100, 100), 100);
    assert_eq!(percent(250, 100), 100);
    assert_eq!(percent(5, 0), 0);
    assert_eq!(percent(1, 3), 33);
}

#[test]
fn percent_never_decreases() {
    let mut last = 0;
    for d in 0..=200u64 {
        let p = percent(d, 100);
        assert!(p >= last);
        assert!(p <= 100);
        last = p;
    }
}

#[test]
fn speed_and_eta_arithmetic() {
    assert_eq!(speed_bps(0, 0), 0);
    assert_eq!(speed_bps(1000, 0), 0);
    assert_eq!(speed_bps(1000, 2000), 500);
    assert_eq!(eta_ms(100, 50, 50), 1000);
    assert_eq!(eta_ms(100, 50, 0), 0);
    assert_eq!(eta_ms(50, 100, 10), 0);
}

#[test]
fn effective_cols_floor_and_fallback() {
    assert_eq!(effective_cols(None), 80);
    assert_eq!(effective_cols(Some(120)), 120);
    assert_eq!(effective_cols(Some(10)), 51);
}

#[test]
fn truncate_marks_cut_names() {
    assert_eq!(truncate_string("short", 10), "short");
    assert_eq!(truncate_string("averylongfilename", 10), "averylo...");
    assert_eq!(truncate_string("abc", 3), "abc");
    assert_eq!(truncate_string("abcd", 2), "...");
}

#[test]
fn tracker_counts_and_throttles() {
    let mut t = ProgressTracker::new(Some(1000), "dir/sub/file.bin", false);
    assert_eq!(t.filename, "file.bin");
    assert_eq!(t.downloaded, 0);
    t.inc(100);
    t.inc(50);
    assert_eq!(t.downloaded, 150);
    let base = t.last_render_ms;
    assert!(!t.should_render(base + 200));
    assert!(t.should_render(base + 201));
    t.mark_rendered(base + 300);
    assert!(!t.should_render(base + 400));
    let mut q = ProgressTracker::new(None, "x", true);
    let qb = q.last_render_ms;
    assert!(!q.should_render(qb + 10_000));
    q.inc(u64::MAX);
    q.inc(10);
    assert_eq!(q.downloaded, u64::MAX);
}

#[test]
fn elapsed_is_measured_from_start() {
    let t = ProgressTracker {
        total: None,
        downloaded: 0,
        start_ms: 5000,
        last_render_ms: 5000,
        quiet: true,
        filename: "f".to_string(),
    };
    assert_eq!(t.elapsed_since(7500), 2500);
    assert_eq!(t.elapsed_since(4000), 0);
}

#[test]
fn render_line_layout_at_eighty_columns() {
    let t = ProgressTracker {
        total: Some(100),
        downloaded: 50,
        start_ms: 0,
        last_render_ms: 0,
        quiet: false,
        filename: "file.txt".to_string(),
    };
    let line = t.render_line_at(1000, 80);
    assert_eq!(
        line,
        "file.txt             50%[========>         ]      50       50B/s  eta 1s"
    );
}

#[test]
fn render_line_complete_shows_elapsed() {
    let t = ProgressTracker {
        total: Some(100),
        downloaded: 100,
        start_ms: 0,
        last_render_ms: 0,
        quiet: false,
        filename: "f".to_string(),
    };
    let line = t.render_line_at(2000, 80);
    assert!(line.contains("100%["));
    assert!(line.ends_with("in 2s"));
    assert!(line.contains("=>"));
}

#[test]
fn render_line_narrow_terminal_drops_bar() {
    let t = ProgressTracker {
        total: Some(100),
        downloaded: 10,
        start_ms: 0,
        last_render_ms: 0,
        quiet: false,
        filename: "f".to_string(),
    };
    let line = t.render_line_at(1000, 51);
    assert!(!line.contains('['));
    assert!(line.contains("10%"));
}

#[test]
fn crawl_policy_stays_on_host() {
    assert!(should_download_policy(
        Some("example.com"),
        Some("example.com"),
        false,
        None,
        None,
        "/a/b.html",
    ));
    assert!(!should_download_policy(
        Some("other.com"),
        Some("example.com"),
        false,
        None,
        None,
        "/a/b.html",
    ));
    assert!(!should_download_policy(None, Some("example.com"), false, None, None, "/x"));
}

#[test]
fn crawl_policy_skips_asset_extensions() {
    for p in ["/s/style.css", "/j/app.js", "/favicon.ico", "/i/x.png", "/i/x.jpg",
        "/i/x.jpeg", "/i/x.gif", "/i/x.svg"] {
        assert!(!should_download_policy(
            Some("example.com"),
            Some("example.com"),
            false,
            None,
            None,
            p,
        ));
    }
    assert!(should_download_policy(
        Some("example.com"),
        Some("example.com"),
        false,
        None,
        None,
        "/docs/page.html",
    ));
}

#[test]
fn crawl_policy_no_parent_keeps_subtree() {
    let base: Vec<String> = vec!["docs".to_string(), "index.html".to_string()];
    let inside: Vec<String> = vec!["docs".to_string(), "sub".to_string(), "x.html".to_string()];
    let outside: Vec<String> = vec!["other".to_string(), "x.html".to_string()];
    let above: Vec<String> = vec![];
    assert!(should_download_policy(
        Some("h"),
        Some("h"),
        true,
        Some(&base),
        Some(&inside),
        "/docs/sub/x.html",
    ));
    assert!(!should_download_policy(
        Some("h"),
        Some("h"),
        true,
        Some(&base),
        Some(&outside),
        "/other/x.html",
    ));
    assert!(!should_download_policy(
        Some("h"),
        Some("h"),
        true,
        Some(&base),
        Some(&above),
        "/",
    ));
}

#[test]
fn html_content_detection() {
    assert!(is_html_content_type("text/html; charset=utf-8"));
    assert!(!is_html_content_type("image/png"));
    assert!(!is_html_content_type(""));
}
