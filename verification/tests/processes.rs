use rust_top::draw::process_tree::{header_line, process_line, sort_processes, ProcessColumn, ProcessWidget, SearchState, SortOrder};
use rust_top::processes::processdata::{command_line, uid_to_user, CollectProcessData};
use rust_top::ui::Rect;

fn proc_row(pid: u32, program: &str, command: &str, cpu: f32, mem: f32) -> CollectProcessData {
    CollectProcessData {
        pid,
        command: command.to_string(),
        program: program.to_string(),
        mem_usage_percent: mem.to_bits(),
        cpu_usage_percent: cpu.to_bits(),
        uid: Some(1000),
        user: "Base User",
    }
}

fn pids(v: &[CollectProcessData]) -> Vec<u32> {
    v.iter().map(|p| p.pid).collect()
}

#[test]
fn header_matches_format() {
    assert_eq!(header_line(), format!("{:>7} {:>7} {:>7} {:>15} {}", "PID", "CPU", "MEM", "Program", "Command"));
    assert_eq!(ProcessColumn::display_header(ProcessColumn::Pid), "PID");
    assert_eq!(ProcessColumn::display_header(ProcessColumn::MemUsage), "MEM");
}

#[test]
fn process_line_matches_format() {
    let p = proc_row(1234, "firefox", "/usr/bin/firefox -P", 12.34, 5.0);
    assert_eq!(
        process_line(&p),
        format!("{:>7} {:>6.1}% {:>6.1}% {:>15} {}", 1234, 12.34f32, 5.0f32, "firefox", "/usr/bin/firefox -P")
    );
    let long = proc_row(7, "a-very-long-program-name", "x", 100.0, 0.05);
    assert_eq!(
        process_line(&long),
        format!("{:>7} {:>6.1}% {:>6.1}% {:>15} {}", 7, 100.0f32, 0.05f32, "a-very-long-program-name", "x")
    );
}

#[test]
fn sort_by_cpu_descending_then_pid() {
    let rows = vec![
        proc_row(5, "a", "a", 1.0, 1.0),
        proc_row(3, "b", "b", 9.0, 1.0),
        proc_row(4, "c", "c", 1.0, 2.0),
        proc_row(1, "d", "d", 50.0, 0.0),
    ];
    let sorted = sort_processes(&rows, ProcessColumn::CpuUsage, SortOrder::Descending);
    assert_eq!(pids(&sorted), vec![1, 3, 4, 5]);
    let by_mem = sort_processes(&rows, ProcessColumn::MemUsage, SortOrder::Descending);
    assert_eq!(pids(&by_mem), vec![4, 3, 5, 1]);
}

#[test]
fn sort_keeps_last_of_same_place() {
    let rows = vec![proc_row(2, "old", "old", 3.0, 0.0), proc_row(2, "new", "new", 3.0, 0.0)];
    let sorted = sort_processes(&rows, ProcessColumn::CpuUsage, SortOrder::Descending);
    assert_eq!(sorted.len(), 1);
    assert_eq!(sorted[0].program, "new");
}

#[test]
fn sort_orders_negative_values_and_lengths() {
    let rows = vec![
        proc_row(8, "ab", "x", -2.5, 0.0),
        proc_row(6, "abcd", "x", 0.0, 0.0),
        proc_row(7, "a", "x", -0.5, 0.0),
        proc_row(9, "abc", "x", 1e30, 0.0),
    ];
    let by_cpu = sort_processes(&rows, ProcessColumn::CpuUsage, SortOrder::Descending);
    assert_eq!(pids(&by_cpu), vec![9, 6, 7, 8]);
    let by_program = sort_processes(&rows, ProcessColumn::Program, SortOrder::Descending);
    assert_eq!(pids(&by_program), vec![6, 9, 8, 7]);
    let by_pid = sort_processes(&rows, ProcessColumn::Pid, SortOrder::Descending);
    assert_eq!(pids(&by_pid), vec![9, 8, 7, 6]);
}

#[test]
fn search_filters_by_prefix() {
    let mut w = ProcessWidget::new();
    let rows = vec![
        proc_row(1, "Firefox", "firefox", 2.0, 1.0),
        proc_row(2, "bash", "/bin/bash", 1.0, 1.0),
        proc_row(3, "fish", "FISH -l", 3.0, 1.0),
    ];
    w.refresh(rows);
    assert_eq!(w.shown().len(), 3);
    w.start_search();
    assert_eq!(w.search_state(), SearchState::Searching);
    w.type_char('F');
    assert_eq!(pids(w.shown()), vec![1, 3]);
    // Filtering empties the table, so the next key filters nothing until
    // the next refresh brings rows again.
    w.type_char('i');
    assert!(w.shown().is_empty());
    w.refresh(vec![
        proc_row(1, "Firefox", "firefox", 2.0, 1.0),
        proc_row(2, "bash", "/bin/bash", 1.0, 1.0),
        proc_row(3, "fish", "FISH -l", 3.0, 1.0),
    ]);
    assert_eq!(pids(w.shown()), vec![1, 3]);
    w.type_char('r');
    assert!(w.shown().is_empty());
    w.erase_char();
    w.erase_char();
    assert_eq!(w.filter_text(), "/F");
    w.clear_search();
    assert_eq!(w.search_state(), SearchState::NoSearch);
}

#[test]
fn list_lines_of_widget() {
    let mut w = ProcessWidget::new();
    w.refresh(vec![proc_row(9, "b", "b", 1.0, 0.0), proc_row(8, "a", "a", 2.0, 0.0)]);
    let lines = w.list_lines();
    assert_eq!(lines.len(), 3);
    assert_eq!(lines[0], header_line());
    assert_eq!(lines[1], process_line(&proc_row(8, "a", "a", 2.0, 0.0)));
    assert_eq!(lines[2], process_line(&proc_row(9, "b", "b", 1.0, 0.0)));
}

#[test]
fn filter_box_area() {
    let r = ProcessWidget::filter_area(Rect { x: 10, y: 4, width: 100, height: 20 });
    assert_eq!(r, Rect { x: 80, y: 4, width: 30, height: 3 });
    let r = ProcessWidget::filter_area(Rect { x: 10, y: 4, width: 20, height: 20 });
    assert_eq!(r, Rect { x: 10, y: 4, width: 20, height: 3 });
}

#[test]
fn busy_rows_and_users() {
    let mut c = CollectProcessData::default();
    let rows = vec![
        proc_row(1, "a", "a", 0.0, 0.0),
        proc_row(2, "b", "b", 0.1, 0.0),
        proc_row(3, "c", "c", 0.0, 0.2),
    ];
    assert_eq!(pids(&c.process_data(rows)), vec![2, 3]);
    assert_eq!(uid_to_user(Some(0)), "Root User");
    assert_eq!(uid_to_user(Some(1000)), "Base User");
    assert_eq!(uid_to_user(Some(7)), "Other User");
    assert_eq!(uid_to_user(None), "Idk what's up");
    assert_eq!(c.process_status(), "");
}

#[test]
fn command_line_joins_arguments() {
    assert_eq!(command_line(&vec![]), "");
    assert_eq!(command_line(&vec!["ls".to_string(), "-l".to_string(), "/tmp".to_string()]), "ls -l /tmp");
}

#[test]
fn search_ignores_case() {
    let mut w = ProcessWidget::new();
    w.refresh(vec![
        proc_row(1, "Firefox", "/usr/lib/Firefox", 2.0, 1.0),
        proc_row(2, "bash", "/bin/bash", 1.0, 1.0),
    ]);
    w.start_search();
    w.type_char('f');
    assert_eq!(pids(w.shown()), vec![1]);
}
