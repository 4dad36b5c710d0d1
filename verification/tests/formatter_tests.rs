use mwget::formatter::{
    build_progress_bar_wget, format_bytes_wget, format_duration_wget, format_speed_wget,
    format_tenths, u64_to_string,
};

#[test]
fn test_format_bytes() {
    assert_eq!(format_bytes_wget(500), "500");
    assert_eq!(format_bytes_wget(1024), "1.0K");
    assert_eq!(format_bytes_wget(1536), "1.5K");
    assert_eq!(format_bytes_wget(1048576), "1.0M");
    assert_eq!(format_bytes_wget(1073741824), "1.0G");
}

#[test]
fn test_progress_bar() {
    assert_eq!(build_progress_bar_wget(0, 10), "          ");
    assert_eq!(build_progress_bar_wget(50, 10), "====>     ");
    assert_eq!(build_progress_bar_wget(100, 10), "=========>");
}

#[test]
fn test_format_duration() {
    assert_eq!(format_duration_wget(0), "0.0s");
    assert_eq!(format_duration_wget(200), "0.2s");
    assert_eq!(format_duration_wget(999), "1.0s");
    assert_eq!(format_duration_wget(30_000), "30s");
    assert_eq!(format_duration_wget(60_000), "1m");
    assert_eq!(format_duration_wget(90_000), "1m30s");
    assert_eq!(format_duration_wget(150_000), "2m30s");
    assert_eq!(format_duration_wget(3_600_000), "1h");
    assert_eq!(format_duration_wget(3_660_000), "1h1m");
    assert_eq!(format_duration_wget(3_720_000), "1h2m");
}

#[test]
fn format_values_from_scenarios() {
    assert_eq!(format_bytes_wget(1536), "1.5K");
    assert_eq!(format_speed_wget(2_097_152), "2.0MB/s");
    assert_eq!(format_duration_wget(3_720_000), "1h2m");
}

#[test]
fn format_speed_small_and_large() {
    assert_eq!(format_speed_wget(500), "500B/s");
    assert_eq!(format_speed_wget(1536), "1.5KB/s");
    assert_eq!(format_speed_wget(3 * 1024 * 1024 * 1024), "3.0GB/s");
}

#[test]
fn format_bytes_rounds_to_nearest_tenth() {
    // 1535 bytes is 1.4990 KiB, which rounds up to 1.5.
    assert_eq!(format_bytes_wget(1535), "1.5K");
    // 1100 bytes is 1.0742 KiB, which rounds down to 1.1.
    assert_eq!(format_bytes_wget(1100), "1.1K");
}

#[test]
fn duration_rounds_sub_minute_parts() {
    // 59.999 seconds rounds to 60 whole seconds, printed as such.
    assert_eq!(format_duration_wget(59_999), "60s");
    // One minute and one tenth of a second keeps the minute and a zero-second part.
    assert_eq!(format_duration_wget(60_100), "1m0s");
}

#[test]
fn progress_bar_full_width_shapes() {
    let empty = build_progress_bar_wget(0, 30);
    assert_eq!(empty.len(), 30);
    assert!(empty.chars().all(|c| c == ' '));
    let full = build_progress_bar_wget(100, 30);
    assert_eq!(full.len(), 30);
    assert!(full.ends_with('>'));
    assert!(full[..29].chars().all(|c| c == '='));
    let over = build_progress_bar_wget(150, 30);
    assert_eq!(over, full);
    let half = build_progress_bar_wget(50, 30);
    assert_eq!(half.len(), 30);
}

#[test]
fn decimal_strings() {
    assert_eq!(u64_to_string(0), "0");
    assert_eq!(u64_to_string(9_876_543_210), "9876543210");
    assert_eq!(format_tenths(15), "1.5");
    assert_eq!(format_tenths(7), "0.7");
}
