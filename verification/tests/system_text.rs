use rust_top::data::cpu::CpuInfo;
use rust_top::data::darwin::cache::{CacheMac, PerfLevelCaches};
use rust_top::data::info::SystemInfo;
use rust_top::unix::info::os_lines;

#[test]
fn cpu_frequency_of_first_core() {
    assert_eq!(CpuInfo::display_cpu_frequency(&vec![]), None);
    assert_eq!(CpuInfo::display_cpu_frequency(&vec![3200, 800]), Some(3200));
    assert_eq!(SystemInfo::display_cpu_frequency(&vec![2400]), Some(2400));
}

#[test]
fn title_lines() {
    assert_eq!(os_lines(Some("6.8.0".to_string()), "No Kernel data available"), vec!["".to_string(), "6.8.0".to_string()]);
    assert_eq!(os_lines(None, "No Os data available"), vec!["".to_string(), "No Os data available".to_string()]);
}

#[test]
fn perf_level_cache_lines() {
    let p = PerfLevelCaches { l1i: Some(192 * 1024), l1d: Some(128 * 1024), l2: Some(16 * 1024 * 1024) };
    let e = PerfLevelCaches { l1i: Some(128 * 1024), l1d: None, l2: Some(4 * 1024 * 1024 + 5) };
    assert_eq!(
        CacheMac::cache_levels(p, e),
        vec![
            "P-L1i: 192 KB".to_string(),
            "P-L1d: 128 KB".to_string(),
            "P-L2: 16 MB".to_string(),
            "E-L1i: 128 KB".to_string(),
            "E-L2: 4 MB".to_string(),
        ]
    );
    let none = PerfLevelCaches { l1i: None, l1d: None, l2: None };
    let none2 = PerfLevelCaches { l1i: None, l1d: None, l2: None };
    assert!(CacheMac::cache_levels(none, none2).is_empty());
}

#[test]
fn system_info_delegates() {
    assert_eq!(SystemInfo::cache_kb(2048), "2 KB");
    assert_eq!(SystemInfo::display_cores(&vec![12.5f32.to_bits()]).unwrap(), vec!["".to_string(), "Core 0: 12.5%".to_string()]);
    assert!(SystemInfo::display_cpu_model(&vec![]).is_none());
}
