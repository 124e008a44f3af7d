use rust_top::data::network::NetworkHarvester;
use rust_top::draw::histogram::NetworkHistogram;
use rust_top::draw::network::NetworkChart;
use rust_top::tools::units::{format_rate, format_total};

#[test]
fn harvester_sums_interfaces() {
    let mut h = NetworkHarvester::default();
    assert_eq!(h.get_curr_network_data(&vec![(1, 2), (3, 4), (10, 0)]), vec![14, 6]);
    assert_eq!(h.get_total_network_data(&vec![(100, 200)]), vec![100, 200]);
    assert_eq!((h.curr_rx, h.curr_tx, h.total_rx, h.total_tx), (14, 6, 100, 200));
    assert_eq!(h.get_curr_network_data(&vec![]), vec![0, 0]);
}

#[test]
fn harvester_address_line() {
    let h = NetworkHarvester::default();
    assert_eq!(h.get_ip_adress(Some("192.168.1.4".to_string())), "Local IP address: 192.168.1.4");
    assert_eq!(h.get_ip_adress(None), "Unable to get local IP address");
}

#[test]
fn histogram_keeps_last_samples() {
    let mut h = NetworkHistogram::new(2);
    h.update(&vec![100, 10], &vec![1000, 100]);
    h.update(&vec![2048, 20], &vec![3000, 200]);
    h.update(&vec![300, 30], &vec![5000, 300]);
    assert_eq!(h.current(), (300, 30));
    assert_eq!(h.totals(), (5000, 300));
    // Only the last two samples (ticks 1 and 2) stay.
    assert_eq!(h.x_bounds(), (1, 3));
    assert_eq!(h.axis_max(), 2048);
    assert_eq!(h.y_labels(), vec!["0".to_string(), "1.0K".to_string(), "2.0K".to_string()]);
    assert_eq!(h.x_labels(), vec!["4s".to_string(), "2s".to_string(), "0s".to_string()]);
    let (rx, tx) = h.dataset_names();
    assert_eq!(rx, format!("RX: {} All: {}", format_rate((300u64 as f64).to_bits()), format_total(5000)));
    assert_eq!(tx, "TX: 30b/s All: 300B");
}

#[test]
fn empty_histogram() {
    let h = NetworkHistogram::new(60);
    assert_eq!(h.current(), (0, 0));
    assert_eq!(h.axis_max(), 1024);
    assert_eq!(h.x_bounds(), (0, 1));
    assert_eq!(h.x_labels()[0], "120s");
    assert_eq!(h.dataset_names().0, "RX: 0b/s All: 0B");
}

#[test]
fn chart_lines() {
    let mut c = NetworkChart::new();
    c.update(1536, 10, 3 * 1024 * 1024, 999);
    let (rx, tx) = c.lines();
    assert_eq!(rx, format!("RX: {:<12}All: {}", "1.5Kb/s", "3.0MB"));
    assert_eq!(tx, format!("TX: {:<12}All: {}", "10b/s", "999B"));
    assert_eq!(NetworkChart::format_rate(5 * 1073741824), "5.0Gb/s");
    assert_eq!(NetworkChart::format_total(1023), "1023B");
}
