use rust_top::data::cpu::CpuInfo;

#[test]
fn cpu_cache_l1_format_kb() {
    let bytes: usize = 32 * 1024;
    assert_eq!(CpuInfo::cache_kb(bytes), "32 KB");
}

#[test]
fn cpu_cache_l2_format_kb() {
    let bytes: usize = 512 * 1024;
    assert_eq!(CpuInfo::cache_kb(bytes), "512 KB");
}

#[test]
fn cpu_cache_zero_bytes_formats_as_zero_kb() {
    let bytes: usize = 0;
    assert_eq!(CpuInfo::cache_kb(bytes), "0 KB");
}

#[test]
fn cpu_core_format_string() {
    assert_eq!(CpuInfo::core_line(0, 45.678f32.to_bits()), "Core 0: 45.7%");
}

#[test]
fn cpu_core_format_zero_usage() {
    assert_eq!(CpuInfo::core_line(3, 0.0f32.to_bits()), "Core 3: 0.0%");
}

#[test]
fn cpu_core_format_hundred_percent() {
    assert_eq!(CpuInfo::core_line(7, 100.0f32.to_bits()), "Core 7: 100.0%");
}

#[test]
fn core_line_agrees_with_std_formatting() {
    for (i, u) in [0.05f32, 0.15, 0.25, 12.34, 99.99, 1e-40, 3e38, -1.0].iter().enumerate() {
        assert_eq!(CpuInfo::core_line(i, u.to_bits()), format!("Core {}: {:.1}%", i, u));
    }
}

#[test]
fn display_cores_empty_is_none() {
    assert!(CpuInfo::display_cores(&vec![]).is_none());
}

#[test]
fn display_cores_lines() {
    let cores = CpuInfo::display_cores(&vec![1.0f32.to_bits(), 50.25f32.to_bits()]).unwrap();
    assert_eq!(cores, vec!["".to_string(), "Core 0: 1.0%".to_string(), "Core 1: 50.2%".to_string()]);
}

#[test]
fn display_cpu_cache_entries() {
    assert!(CpuInfo::cache_entries(None, None, None).is_none());
    let m = CpuInfo::cache_entries(Some(32768), None, Some("16 MiB".to_string())).unwrap();
    assert_eq!(m, vec![("L1".to_string(), "32 KB".to_string()), ("L3".to_string(), "16 MiB".to_string())]);
}

#[test]
fn display_cpu_model_brand() {
    assert!(CpuInfo::display_cpu_model(&vec![]).is_none());
    let m = CpuInfo::display_cpu_model(&vec!["Ryzen".to_string(), "x".to_string()]).unwrap();
    assert_eq!(m, vec![("Brand".to_string(), "Ryzen".to_string())]);
}

#[test]
fn cpu_display_cpu_cache_returns_some() {
    let cache = CpuInfo::display_cpu_cache(None);
    assert!(cache.is_some(), "expected cache info on this machine");
    let map = cache.unwrap();
    assert!(map.iter().any(|(k, _)| k == "L1"), "expected L1 cache entry");
    for (key, val) in &map {
        assert!(!val.is_empty(), "{} cache value should not be empty", key);
    }
}

#[test]
fn cpu_display_cores_first_entry_is_empty() {
    let mut sys = sysinfo::System::new_all().unwrap();
    sys.refresh_cpu_usage();
    let usages: Vec<u32> = sys.cpus().iter().map(|c| c.usage().to_bits()).collect();
    if let Some(cores) = CpuInfo::display_cores(&usages) {
        assert_eq!(cores[0], "");
        for entry in &cores[1..] {
            assert!(entry.starts_with("Core "), "unexpected format: {}", entry);
            assert!(entry.contains('%'), "missing % in: {}", entry);
        }
    }
}
