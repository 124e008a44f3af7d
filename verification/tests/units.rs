use rust_top::tools::units::{format_axis_label, format_bytes, format_rate, format_total};

fn rate_like_std(bytes: f64) -> String {
    const KB: f64 = 1024.0;
    const MB: f64 = 1024.0 * 1024.0;
    const GB: f64 = 1024.0 * 1024.0 * 1024.0;
    if bytes >= GB {
        format!("{:.1}Gb/s", bytes / GB)
    } else if bytes >= MB {
        format!("{:.1}Mb/s", bytes / MB)
    } else if bytes >= KB {
        format!("{:.1}Kb/s", bytes / KB)
    } else {
        format!("{:.0}b/s", bytes)
    }
}

fn bytes_like_std(bytes: u64) -> String {
    let b = bytes as f64;
    let t = 1024.0f64 * 1024.0 * 1024.0 * 1024.0;
    let g = 1024.0f64 * 1024.0 * 1024.0;
    let m = 1024.0f64 * 1024.0;
    let k = 1024.0f64;
    if b >= t {
        format!("{:.2} TB", b / t)
    } else if b >= g {
        format!("{:.2} GB", b / g)
    } else if b >= m {
        format!("{:.2} MB", b / m)
    } else if b >= k {
        format!("{:.2} KB", b / k)
    } else {
        format!("{} B", bytes)
    }
}

#[test]
fn format_total_exact_values() {
    assert_eq!(format_total(0), "0B");
    assert_eq!(format_total(1023), "1023B");
    assert_eq!(format_total(1024), "1.0KB");
    assert_eq!(format_total(1536), "1.5KB");
    assert_eq!(format_total(1024 * 1024), "1.0MB");
    assert_eq!(format_total(3 * 1024 * 1024 * 1024 / 2), "1.5GB");
}

#[test]
fn format_total_rounds_ties_to_even() {
    // 1.25 KiB and 1.75 KiB are exact ties at one decimal.
    assert_eq!(format_total(1280), "1.2KB");
    assert_eq!(format_total(1792), "1.8KB");
    assert_eq!(format_total(1280), format!("{:.1}KB", 1280f64 / 1024.0));
}

#[test]
fn format_bytes_exact_values() {
    assert_eq!(format_bytes(0), "0 B");
    assert_eq!(format_bytes(512), "512 B");
    assert_eq!(format_bytes(1024), "1.00 KB");
    assert_eq!(format_bytes(16 * 1024 * 1024 * 1024), "16.00 GB");
    assert_eq!(format_bytes(1024u64.pow(4) * 3), "3.00 TB");
    assert_eq!(format_bytes(u64::MAX), bytes_like_std(u64::MAX));
}

#[test]
fn format_bytes_agrees_with_std_formatting() {
    let mut x: u64 = 1;
    for i in 0..2000u64 {
        x = x.wrapping_mul(6364136223846793005).wrapping_add(1442695040888963407);
        let v = x >> (i % 64);
        assert_eq!(format_bytes(v), bytes_like_std(v), "value {}", v);
        assert_eq!(format_bytes(i * 5), bytes_like_std(i * 5));
    }
}

#[test]
fn format_rate_agrees_with_std_formatting() {
    let samples = [
        0.0f64, 0.5, 1.5, 2.5, 1023.0, 1023.5, 1024.0, 1075.2, 1126.4, 123456.0, 1e9, 1e12, 5e20,
        -3.0, -0.0, f64::INFINITY, f64::NAN, 0.25, 99.95,
    ];
    for s in samples {
        assert_eq!(format_rate(s.to_bits()), rate_like_std(s), "sample {}", s);
    }
}

#[test]
fn format_rate_units() {
    assert_eq!(format_rate(512f64.to_bits()), "512b/s");
    assert_eq!(format_rate(2048f64.to_bits()), "2.0Kb/s");
    assert_eq!(format_rate((3.0f64 * 1024.0 * 1024.0).to_bits()), "3.0Mb/s");
    assert_eq!(format_rate((1024.0f64 * 1024.0 * 1024.0).to_bits()), "1.0Gb/s");
}

#[test]
fn format_axis_label_values() {
    assert_eq!(format_axis_label(0f64.to_bits()), "0");
    assert_eq!(format_axis_label((-5.0f64).to_bits()), "0");
    assert_eq!(format_axis_label(512.5f64.to_bits()), "512");
    assert_eq!(format_axis_label(513.5f64.to_bits()), "514");
    assert_eq!(format_axis_label(1536f64.to_bits()), "1.5K");
    assert_eq!(format_axis_label((1024.0f64 * 1024.0 * 1024.0 * 2.0).to_bits()), "2.0G");
}
