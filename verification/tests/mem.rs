use rust_top::data::mem::MemInfo;

const GIGABYTE: f64 = 1024.0 * 1024.0 * 1024.0;

#[test]
fn mem_memory_format_total_gb() {
    let bytes: u64 = 16 * 1024 * 1024 * 1024;
    assert_eq!(MemInfo::gigabytes(bytes), "16.00 GB");
}

#[test]
fn mem_memory_format_fractional_gb() {
    let bytes: u64 = (6.5 * GIGABYTE) as u64;
    assert_eq!(MemInfo::gigabytes(bytes), "6.50 GB");
}

#[test]
fn mem_memory_display_line_format() {
    let total = (16.0 * GIGABYTE) as u64;
    let total_swap = (8.0 * GIGABYTE) as u64;
    assert_eq!(MemInfo::total_line(total, total_swap), "Total: 16.00 GB    Total Swap: 8.00 GB");
}

#[test]
fn mem_memory_used_line_format() {
    let used = (5.25 * GIGABYTE) as u64;
    let used_swap = (1.10 * GIGABYTE) as u64;
    assert_eq!(MemInfo::used_line(used, used_swap), "Used: 5.25 GB    Used Swap: (1.10 GB)");
}

#[test]
fn display_memory_is_two_lines() {
    let lines = MemInfo::display_memory(1 << 30, 1 << 29, 0, 0).unwrap();
    assert_eq!(lines, vec!["Total: 1.00 GB    Total Swap: 0.00 GB".to_string(), "Used: 0.50 GB    Used Swap: (0.00 GB)".to_string()]);
}

#[test]
fn mem_display_memory_returns_two_lines() {
    let mut sys = sysinfo::System::new_all().unwrap();
    sys.refresh_memory();
    let info = MemInfo::display_memory(sys.total_memory(), sys.used_memory(), sys.total_swap(), sys.used_swap());
    assert!(info.is_some());
    let lines = info.unwrap();
    assert_eq!(lines.len(), 2);
    assert!(lines[0].starts_with("Total:"));
    assert!(lines[1].starts_with("Used:"));
}
