use rust_top::data::disk::{DiskData, DiskRecord};
use rust_top::data::temp::TempData;
use rust_top::draw::graph::DiskGraph;
use rust_top::draw::widgets::disk_table::DiskTable;
use rust_top::draw::widgets::temp_widget::TempWidget;
use rust_top::platform::Platform;

fn disk(name: &str, mount: &str, total: u64) -> DiskRecord {
    DiskRecord {
        name: name.to_string(),
        file_system: "ext4".to_string(),
        mount_point: mount.to_string(),
        total_space: total,
        available_space: total / 2,
    }
}

#[test]
fn disks_listed_sorted_by_mount() {
    let disks = vec![
        disk("/dev/sda2", "/home", 2048),
        disk("tmpfs", "/tmp", 10),
        disk("/dev/sda1", "/", 1024),
        disk("/dev/sdb1", "/home", 4096),
    ];
    let mut d = DiskData::new();
    d.collect_all(&disks, 7, 9, Platform::Linux);
    assert_eq!(d.disk_name, vec!["/dev/sda1".to_string(), "/dev/sda2".to_string(), "/dev/sdb1".to_string()]);
    assert_eq!(d.mount, vec!["/".to_string(), "/home".to_string(), "/home".to_string()]);
    assert_eq!(d.curr_read, vec![7, 7, 7]);
    assert_eq!(d.curr_write, vec![9, 9, 9]);
    let t = DiskTable::new();
    assert_eq!(t.get_height(&d), 6);
    let rows = DiskTable::rows(&d);
    assert_eq!(rows[0], vec!["/dev/sda1", "ext4", "/", "1.00 KB", "512 B", "7 B", "9 B"]);
    assert_eq!(DiskTable::header(), vec!["Disk", "FS", "Mount", "Total", "Available", "IO R", "IO W"]);
    assert_eq!(DiskTable::kernel_title("6.8.0"), "Kernel 6.8.0");
}

#[test]
fn disks_listed_on_macos() {
    let disks = vec![
        disk("Macintosh HD", "/System/Volumes/Data", 4096),
        disk("Macintosh HD", "/", 4096),
        disk("Backup", "/Volumes/Backup", 2048),
        disk("Empty", "/Volumes/Empty", 0),
        disk("Some disk image", "/Volumes/img", 10),
        disk("devfs", "/dev", 10),
        disk("VM", "/private/var/vm", 10),
    ];
    let mut d = DiskData::new();
    d.collect_all(&disks, 1, 2, Platform::MacOs);
    assert_eq!(d.mount, vec!["/".to_string(), "/Volumes/Backup".to_string()]);
    assert_eq!(d.disk_name.len(), 2);
}

#[test]
fn disk_io_totals() {
    assert_eq!(DiskData::total_io(&vec![1, 2, 3]), Some(6));
    assert_eq!(DiskData::total_io(&vec![u64::MAX, 1]), None);
}

#[test]
fn disk_graph_rows() {
    let mut g = DiskGraph::new();
    assert_eq!(g.get_height(), 4);
    let mut d = DiskData::new();
    g.update(&mut d, &vec![disk("/dev/nvme0n1p1", "/boot", 1 << 30)], 0, 0, Platform::Linux);
    assert_eq!(g.get_height(), 4);
    let rows = g.rows();
    assert_eq!(rows, vec![vec!["/dev/nvme0n1p1", "ext4", "/boot", "1.00 GB", "512.00 MB", "0 B", "0 B"]]);
}

#[test]
fn temps_keyed_by_label() {
    assert!(TempData::all_temps(&vec![]).is_none());
    let readings = vec![
        ("a".to_string(), Some(1)),
        ("b".to_string(), None),
        ("a".to_string(), Some(3)),
    ];
    let m = TempData::all_temps(&readings).unwrap();
    assert_eq!(m, vec![("a".to_string(), Some(3)), ("b".to_string(), None)]);
}

#[test]
fn temp_widget_on_macos() {
    let mut w = TempWidget::new();
    let readings = vec![
        ("PMU tdie1".to_string(), None),
        ("PMU tdie2".to_string(), Some(40.0f32.to_bits())),
        ("NAND CH0 temp".to_string(), Some(35.0f32.to_bits())),
        ("PMU tdie3".to_string(), Some(41.0f32.to_bits())),
    ];
    w.filter(&readings, Platform::MacOs);
    assert!(w.is_shown(&"PMU tdie2".to_string()));
    assert!(w.is_shown(&"NAND CH0 temp".to_string()));
    assert!(!w.is_shown(&"PMU tdie1".to_string()));
    assert!(!w.is_shown(&"PMU tdie3".to_string()));
    assert_eq!(w.get_height(), 4);
}

#[test]
fn temp_widget_picks_sensors() {
    let mut w = TempWidget::new();
    assert_eq!(w.get_height(), 3);
    assert_eq!(w.get_length(), 20);
    let readings = vec![
        ("k10temp Tctl".to_string(), Some(61.25f32.to_bits())),
        ("nvme Composite".to_string(), None),
        ("coretemp Core 0".to_string(), Some(50.0f32.to_bits())),
        ("acpitz".to_string(), Some(30.0f32.to_bits())),
    ];
    w.filter(&readings, Platform::Linux);
    assert!(w.is_shown(&"k10temp Tctl".to_string()));
    assert!(w.is_shown(&"nvme Composite".to_string()));
    assert!(!w.is_shown(&"coretemp Core 0".to_string()));
    assert_eq!(w.get_height(), 4);
    assert_eq!(w.get_length(), ("nvme Composite".len() + 10 + 4) as u16);
    assert_eq!(w.shown_lines(&readings), vec![("k10temp Tctl: ".to_string(), format!("{:.1}°C", 61.25f32))]);
}
