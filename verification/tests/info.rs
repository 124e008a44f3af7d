use rust_top::data::info::SystemInfo;
use rust_top::data::mem::MemInfo;

const GIGABYTE: f64 = 1024.0 * 1024.0 * 1024.0;

#[test]
fn info_cache_l1_format_kb() {
    let bytes: usize = 32 * 1024;
    assert_eq!(SystemInfo::cache_kb(bytes), "32 KB");
}

#[test]
fn info_cache_l2_format_kb() {
    let bytes: usize = 512 * 1024;
    assert_eq!(SystemInfo::cache_kb(bytes), "512 KB");
}

#[test]
fn info_cache_zero_bytes_formats_as_zero_kb() {
    let bytes: usize = 0;
    assert_eq!(SystemInfo::cache_kb(bytes), "0 KB");
}

#[test]
fn cache_cache_l1_format_kb() {
    let bytes: usize = 32 * 1024;
    assert_eq!(SystemInfo::cache_kb(bytes), "32 KB");
}

#[test]
fn cache_cache_l2_format_kb() {
    let bytes: usize = 512 * 1024;
    assert_eq!(SystemInfo::cache_kb(bytes), "512 KB");
}

#[test]
fn cache_cache_zero_bytes_formats_as_zero_kb() {
    let bytes: usize = 0;
    assert_eq!(SystemInfo::cache_kb(bytes), "0 KB");
}

#[test]
fn info_memory_format_total_gb() {
    let bytes: u64 = 16 * 1024 * 1024 * 1024;
    assert_eq!(MemInfo::gigabytes(bytes), "16.00 GB");
}

#[test]
fn info_memory_format_fractional_gb() {
    let bytes: u64 = (6.5 * GIGABYTE) as u64;
    assert_eq!(MemInfo::gigabytes(bytes), "6.50 GB");
}

#[test]
fn info_memory_display_line_format() {
    let total = (16.0 * GIGABYTE) as u64;
    let total_swap = (8.0 * GIGABYTE) as u64;
    let lines = SystemInfo::display_memory(total, 0, total_swap, 0).unwrap();
    assert_eq!(lines[0], "Total: 16.00 GB    Total Swap: 8.00 GB");
}

#[test]
fn info_memory_used_line_format() {
    let used = (5.25 * GIGABYTE) as u64;
    let used_swap = (1.10 * GIGABYTE) as u64;
    let lines = SystemInfo::display_memory(0, used, 0, used_swap).unwrap();
    assert_eq!(lines[1], "Used: 5.25 GB    Used Swap: (1.10 GB)");
}

#[test]
fn info_core_format_string() {
    let cores = SystemInfo::display_cores(&vec![45.678f32.to_bits()]).unwrap();
    assert_eq!(cores[1], "Core 0: 45.7%");
}

#[test]
fn info_core_format_zero_usage() {
    let cores = SystemInfo::display_cores(&vec![1.0f32.to_bits(), 1.0f32.to_bits(), 1.0f32.to_bits(), 0.0f32.to_bits()]).unwrap();
    assert_eq!(cores[4], "Core 3: 0.0%");
}

#[test]
fn info_core_format_hundred_percent() {
    let mut usages = vec![0.0f32.to_bits(); 7];
    usages.push(100.0f32.to_bits());
    let cores = SystemInfo::display_cores(&usages).unwrap();
    assert_eq!(cores[8], "Core 7: 100.0%");
}

#[test]
fn info_display_cpu_cache_returns_some() {
    let cache = SystemInfo::display_cpu_cache(None);
    assert!(cache.is_some(), "expected cache info on this machine");
    let map = cache.unwrap();
    assert!(map.iter().any(|(k, _)| k == "L1"), "expected L1 cache entry");
    for (key, val) in &map {
        assert!(!val.is_empty(), "{} cache value should not be empty", key);
    }
}

#[test]
fn cache_display_cpu_cache_returns_some() {
    let cache = SystemInfo::display_cpu_cache(None);
    assert!(cache.is_some(), "expected cache info on this machine");
    let map = cache.unwrap();
    assert!(map.iter().any(|(k, _)| k == "L1"), "expected L1 cache entry");
    for (key, val) in &map {
        assert!(!val.is_empty(), "{} cache value should not be empty", key);
    }
}

#[test]
fn info_display_cores_first_entry_is_empty() {
    let mut sys = sysinfo::System::new_all().unwrap();
    sys.refresh_cpu_usage();
    let usages: Vec<u32> = sys.cpus().iter().map(|c| c.usage().to_bits()).collect();
    if let Some(cores) = SystemInfo::display_cores(&usages) {
        assert_eq!(cores[0], "");
        for entry in &cores[1..] {
            assert!(entry.starts_with("Core "), "unexpected format: {}", entry);
            assert!(entry.contains('%'), "missing % in: {}", entry);
        }
    }
}

#[test]
fn info_display_memory_returns_two_lines() {
    let mut sys = sysinfo::System::new_all().unwrap();
    sys.refresh_memory();
    let info = SystemInfo::display_memory(sys.total_memory(), sys.used_memory(), sys.total_swap(), sys.used_swap());
    assert!(info.is_some());
    let lines = info.unwrap();
    assert_eq!(lines.len(), 2);
    assert!(lines[0].starts_with("Total:"));
    assert!(lines[1].starts_with("Used:"));
}
