use holo::monitor::{gc_secs_ago_at, GcEvent};
use holo::units::{
    format_bytes, format_duration, format_mb, format_mb_precise, format_rate, format_size,
    sparkline_str,
};

const SPARK_CHARS: [char; 8] = ['▁', '▂', '▃', '▄', '▅', '▆', '▇', '█'];

#[test]
fn sparkline_single_value() {
    let s = sparkline_str(&[100], 10);
    assert_eq!(s.chars().count(), 1);
}

#[test]
fn sparkline_constant_values() {
    let s = sparkline_str(&[50, 50, 50], 10);
    assert!(s.chars().all(|c| c == SPARK_CHARS[3]));
}

#[test]
fn sparkline_range_values() {
    let s = sparkline_str(&[0, 100], 10);
    let chars: Vec<char> = s.chars().collect();
    assert_eq!(chars[0], SPARK_CHARS[0]);
    assert_eq!(chars[1], SPARK_CHARS[7]);
}

#[test]
fn sparkline_caps_to_width() {
    let data: Vec<u64> = (0..20).collect();
    let s = sparkline_str(&data, 5);
    assert_eq!(s.chars().count(), 5);
}

#[test]
fn sparkline_scales_middle_values() {
    assert_eq!(sparkline_str(&[0, 50, 100], 3), "▁▄█");
    assert_eq!(sparkline_str(&[], 3), "");
}

#[test]
fn memory_ui_format_mb_small() {
    assert_eq!(format_mb(512), "0.5 MB");
}

#[test]
fn memory_ui_format_mb_large() {
    assert_eq!(format_mb(128000), "125 MB");
}

#[test]
fn monitor_ui_format_mb_small() {
    assert_eq!(format_mb(512), "0.5 MB");
}

#[test]
fn monitor_ui_format_mb_large() {
    assert_eq!(format_mb(128000), "125 MB");
}

fn ev(ts_ns: i64) -> GcEvent {
    GcEvent { ts_ns, duration_us: 0 }
}

#[test]
fn gc_secs_ago_buckets_by_seconds() {
    let now: i64 = 1_000_000_000_000;
    let events = [ev(now), ev(now - 1_500_000_000), ev(now - 30_000_000_000)];
    assert_eq!(gc_secs_ago_at(now, &events), vec![0, 1, 30]);
}

#[test]
fn gc_secs_ago_handles_future_event_without_panic() {
    let now: i64 = 1_000_000_000_000;
    let events = [ev(now + 5_000_000_000)];
    assert_eq!(gc_secs_ago_at(now, &events), vec![0]);
}

#[test]
fn gc_secs_ago_extreme_timestamps() {
    assert_eq!(gc_secs_ago_at(i64::MAX, &[ev(i64::MIN)]), vec![(((i64::MAX as i128 - i64::MIN as i128) / 1_000_000_000) % (1i128 << 32)) as u32]);
}

#[test]
fn duration_formats() {
    assert_eq!(format_duration(std::time::Duration::from_secs(5).as_secs()), "5s");
    assert_eq!(format_duration(std::time::Duration::from_secs(75).as_secs()), "1m15s");
    assert_eq!(format_duration(std::time::Duration::from_secs(3725).as_secs()), "1h2m");
}

#[test]
fn size_formats() {
    assert_eq!(format_size(512), "512 B");
    assert_eq!(format_size(2048), "2.0 KB");
    assert_eq!(format_size(5 * 1024 * 1024), "5.0 MB");
}

fn float_mb(kb: u64) -> String {
    let mb = kb as f64 / 1024.0;
    if mb >= 100.0 {
        format!("{:.0} MB", mb)
    } else {
        format!("{:.1} MB", mb)
    }
}

#[test]
fn format_mb_matches_float_formatting() {
    for kb in (0..300_000u64).step_by(7) {
        assert_eq!(format_mb(kb), float_mb(kb), "kb = {kb}");
    }
    for kb in [256u64, 768, 1280, 102_400, 102_912, 103_936, u64::MAX, u64::MAX - 1, 1 << 53, (1 << 53) + 1, (1 << 60) + (1 << 7)] {
        assert_eq!(format_mb(kb), float_mb(kb), "kb = {kb}");
    }
}

#[test]
fn format_mb_precise_matches_float_formatting() {
    for kb in (0..100_000u64).step_by(13).chain([10u64, 5, 1, u64::MAX]) {
        assert_eq!(format_mb_precise(kb), format!("{:.2} MB", kb as f64 / 1024.0), "kb = {kb}");
    }
}

fn float_rate(bps: u64) -> String {
    if bps < 1024 {
        format!("{} B/s", bps)
    } else if bps < 1024 * 1024 {
        format!("{:.1} KB/s", bps as f64 / 1024.0)
    } else {
        format!("{:.1} MB/s", bps as f64 / (1024.0 * 1024.0))
    }
}

fn float_bytes(bytes: u64) -> String {
    const KB: u64 = 1024;
    const MB: u64 = KB * 1024;
    const GB: u64 = MB * 1024;
    if bytes < KB {
        format!("{} B", bytes)
    } else if bytes < MB {
        format!("{:.1} KB", bytes as f64 / KB as f64)
    } else if bytes < GB {
        format!("{:.1} MB", bytes as f64 / MB as f64)
    } else {
        format!("{:.2} GB", bytes as f64 / GB as f64)
    }
}

fn float_size(bytes: u64) -> String {
    const KB: u64 = 1024;
    const MB: u64 = 1024 * 1024;
    const GB: u64 = 1024 * 1024 * 1024;
    if bytes < KB {
        format!("{bytes} B")
    } else if bytes < MB {
        format!("{:.1} KB", bytes as f64 / KB as f64)
    } else if bytes < GB {
        format!("{:.1} MB", bytes as f64 / MB as f64)
    } else {
        format!("{:.1} GB", bytes as f64 / GB as f64)
    }
}

#[test]
fn rates_bytes_and_sizes_match_float_formatting() {
    let mut samples: Vec<u64> = (0..5000u64).map(|i| i * 977).collect();
    samples.extend((0..3000u64).map(|i| i * 104_729_423));
    samples.extend([1023, 1024, 1025, 1536, 1_048_575, 1_048_576, 1_572_864, 1 << 30, (1 << 30) + (1 << 29), u64::MAX]);
    for b in samples {
        assert_eq!(format_rate(b), float_rate(b), "bps = {b}");
        assert_eq!(format_bytes(b), float_bytes(b), "bytes = {b}");
        assert_eq!(format_size(b), float_size(b), "bytes = {b}");
    }
}
