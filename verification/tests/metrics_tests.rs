use miniminio::metrics::{counted_method, format_bytes, format_uptime, BucketMetrics, CountedMethod};

fn reference(bytes: u64) -> String {
    const KB: u64 = 1024;
    const MB: u64 = KB * 1024;
    const GB: u64 = MB * 1024;
    const TB: u64 = GB * 1024;
    if bytes >= TB {
        format!("{:.2} TB", bytes as f64 / TB as f64)
    } else if bytes >= GB {
        format!("{:.2} GB", bytes as f64 / GB as f64)
    } else if bytes >= MB {
        format!("{:.2} MB", bytes as f64 / MB as f64)
    } else if bytes >= KB {
        format!("{:.2} KB", bytes as f64 / KB as f64)
    } else {
        format!("{bytes} B")
    }
}

#[test]
fn sizes_read_like_the_float_formatting() {
    let mut samples: Vec<u64> = vec![
        0, 1, 512, 1023, 1024, 1025, 1152, 1126, 1536, 2047, 2048, 10239, 1048575, 1048576, 1572864,
        1073741823, 1073741824, 1099511627775, 1099511627776, 1 << 50, (1 << 53) + 1, (1 << 53) + 3,
        u64::MAX - 1, u64::MAX,
    ];
    let mut x: u64 = 0x9E3779B97F4A7C15;
    for _ in 0..20000 {
        x ^= x << 13;
        x ^= x >> 7;
        x ^= x << 17;
        samples.push(x >> (x % 64));
    }
    for k in 0..5000u64 {
        samples.push(1024 + k * 8);
        samples.push((1 << 20) + k * 8192);
    }
    for b in samples {
        assert_eq!(format_bytes(b), reference(b), "bytes = {b}");
    }
}

#[test]
fn sizes_exact_values() {
    assert_eq!(format_bytes(512), "512 B");
    assert_eq!(format_bytes(1536), "1.50 KB");
    assert_eq!(format_bytes(1152), "1.12 KB");
    assert_eq!(format_bytes(1 << 30), "1.00 GB");
    assert_eq!(format_bytes(u64::MAX), "16777216.00 TB");
}

#[test]
fn uptime_text() {
    assert_eq!(format_uptime(0), "0m 0s");
    assert_eq!(format_uptime(59), "0m 59s");
    assert_eq!(format_uptime(3599), "59m 59s");
    assert_eq!(format_uptime(3600), "1h 0m");
    assert_eq!(format_uptime(90061), "1d 1h 1m");
}

#[test]
fn methods_with_counters() {
    assert_eq!(counted_method("GET"), Some(CountedMethod::Get));
    assert_eq!(counted_method("PUT"), Some(CountedMethod::Put));
    assert_eq!(counted_method("DELETE"), Some(CountedMethod::Delete));
    assert_eq!(counted_method("HEAD"), Some(CountedMethod::Head));
    assert_eq!(counted_method("POST"), None);
    assert_eq!(counted_method("get"), None);
}

#[test]
fn bucket_metrics_accumulate() {
    let mut m = BucketMetrics::default();
    m.record(10, 0);
    m.record(0, 7);
    assert_eq!((m.requests, m.bytes_in, m.bytes_out), (2, 10, 7));
}
