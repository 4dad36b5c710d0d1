use mwget::downloader::{
    chunk_plan, get_hostname, get_port, numbered_name, select_strategy, single_range,
    summary_line, summary_speed, simple_summary_line, DownloadMetadata, RetryPolicy, Strategy,
};

#[test]
fn chunk_plan_two_mebibytes_four_ways() {
    let plan = chunk_plan(0, 2_097_152, 4);
    assert_eq!(
        plan,
        vec![
            (0, 524_287),
            (524_288, 1_048_575),
            (1_048_576, 1_572_863),
            (1_572_864, 2_097_151),
        ]
    );
}

#[test]
fn chunk_plan_covers_without_gaps_or_overlap() {
    for &(start, total, c) in &[
        (0u64, 10u64, 3usize),
        (5, 2_097_152, 4),
        (0, 1, 1),
        (0, 7, 16),
        (99, 100, 8),
    ] {
        let plan = chunk_plan(start, total, c);
        assert!(plan.len() >= 1);
        assert!(plan.len() <= c);
        assert_eq!(plan[0].0, start);
        assert_eq!(plan[plan.len() - 1].1, total - 1);
        for w in plan.windows(2) {
            assert_eq!(w[0].1 + 1, w[1].0);
        }
        for &(s, e) in &plan {
            assert!(s <= e && e < total);
        }
    }
}

#[test]
fn chunk_plan_uneven_remainder() {
    // Ten bytes over three connections: chunks of four, four and two bytes.
    assert_eq!(chunk_plan(0, 10, 3), vec![(0, 3), (4, 7), (8, 9)]);
}

#[test]
fn strategy_already_complete_when_resume_reaches_total() {
    assert_eq!(select_strategy(Some(100), true, 4, 100), Strategy::AlreadyComplete);
    assert_eq!(select_strategy(Some(100), false, 1, 250), Strategy::AlreadyComplete);
}

#[test]
fn strategy_streaming_when_total_unknown() {
    assert_eq!(select_strategy(None, true, 8, 0), Strategy::Streaming);
    assert_eq!(select_strategy(None, false, 1, 999), Strategy::Streaming);
}

#[test]
fn strategy_chunked_needs_range_width_and_size() {
    assert_eq!(select_strategy(Some(2_097_152), true, 4, 0), Strategy::Chunked);
    assert_eq!(select_strategy(Some(2_097_152), false, 4, 0), Strategy::Single);
    assert_eq!(select_strategy(Some(2_097_152), true, 1, 0), Strategy::Single);
    assert_eq!(select_strategy(Some(1_048_576), true, 4, 0), Strategy::Single);
    assert_eq!(select_strategy(Some(1_048_577), true, 2, 0), Strategy::Chunked);
}

#[test]
fn strategy_selection_is_repeatable() {
    let first = select_strategy(Some(5_000_000), true, 4, 1000);
    let second = select_strategy(Some(5_000_000), true, 4, 1000);
    assert_eq!(first, second);
}

#[test]
fn metadata_distrusts_length_under_encoding() {
    let m = DownloadMetadata::assemble(
        "example.com".to_string(),
        "80".to_string(),
        "10.0.0.1".to_string(),
        "text/plain".to_string(),
        200,
        "OK".to_string(),
        Some(5000),
        true,
    );
    assert_eq!(m.total_size, None);
    assert_eq!(select_strategy(m.total_size, true, 8, 0), Strategy::Streaming);
    let plain = DownloadMetadata::assemble(
        "example.com".to_string(),
        "80".to_string(),
        "10.0.0.1".to_string(),
        "text/plain".to_string(),
        200,
        "OK".to_string(),
        Some(5000),
        false,
    );
    assert_eq!(plain.total_size, Some(5000));
}

#[test]
fn retry_gives_up_after_budget() {
    let mut p = RetryPolicy::new(3);
    assert!(p.on_failure());
    assert!(p.on_failure());
    assert!(!p.on_failure());
    assert_eq!(p.failures, 3);
}

#[test]
fn retry_budget_of_one_fails_immediately() {
    let mut p = RetryPolicy::new(1);
    assert!(!p.on_failure());
}

#[test]
fn retry_zero_budget_never_gives_up() {
    let mut p = RetryPolicy::new(0);
    for _ in 0..1000 {
        assert!(p.on_failure());
    }
}

#[test]
fn single_range_only_when_resuming() {
    assert_eq!(single_range(0, Some(100)), None);
    assert_eq!(single_range(10, Some(100)), Some((10, 99)));
    assert_eq!(single_range(10, None), None);
}

#[test]
fn numbered_names_count_up() {
    assert_eq!(numbered_name("file.txt", 1), "file.txt.1");
    assert_eq!(numbered_name("file.txt", 12), "file.txt.12");
}

#[test]
fn hostname_and_port_from_url() {
    assert_eq!(get_hostname("http://example.com/a/b"), "example.com");
    assert_eq!(get_hostname("not a url"), "unknown");
    assert_eq!(get_port("http://example.com/"), "80");
    assert_eq!(get_port("https://example.com/"), "443");
    assert_eq!(get_port("ftp://example.com/"), "unknown");
    assert_eq!(get_port("no scheme here"), "unknown");
}

#[test]
fn summary_lines_and_speeds() {
    assert_eq!(summary_speed(2_097_152), "2.0 MB/s");
    assert_eq!(summary_speed(1536), "1.5 KB/s");
    assert_eq!(summary_speed(512), "512.0 B/s");
    assert_eq!(
        summary_line("2024-05-01 10:00:00", "2.0 MB/s", "f.bin", 10, 20),
        "2024-05-01 10:00:00 (2.0 MB/s) - 'f.bin' saved [10/20]"
    );
    assert_eq!(
        simple_summary_line("2024-05-01 10:00:00", "1.5KB/s", "STDOUT", 42),
        "2024-05-01 10:00:00 (1.5KB/s) - 'STDOUT' saved [42]"
    );
}

#[test]
fn banners_have_wget_shape() {
    let con = mwget::downloader::connection_banner(
        "2024-05-01 10:00:00",
        "http://example.com/f",
        "example.com",
        "10.0.0.1",
        "80",
    );
    assert_eq!(con[0], "--2024-05-01 10:00:00--  http://example.com/f");
    assert_eq!(con[1], "Resolving example.com (example.com)... 10.0.0.1");
    assert_eq!(
        con[2],
        "Connecting to example.com (example.com)|10.0.0.1|:80... connected."
    );
    let resp = mwget::downloader::response_banner(200, "OK", Some(1536), "text/plain", "f.bin");
    assert_eq!(resp[0], "HTTP request sent, awaiting response... 200 OK");
    assert_eq!(resp[1], "Length: 1536 (1.5K) [text/plain]");
    assert_eq!(resp[2], "Saving to: 'f.bin'");
    let unknown = mwget::downloader::response_banner(200, "OK", None, "text/html", "x");
    assert_eq!(unknown[1], "Length: unspecified [text/html]");
}
