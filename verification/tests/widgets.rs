use rust_top::draw::graph::MultiCoreGraph as CoreHistory;
use rust_top::draw::misc::{TickButton, TickCounter};
use rust_top::draw::proc_misc::ProcessButton;
use rust_top::draw::widgets::about_popup::AboutPopUp;
use rust_top::draw::widgets::cpu_bar::{BarColorScheme, TempBar, TotalCoreBar};
use rust_top::draw::widgets::cpu_graph::{ColorScheme, MultiCoreGraph};
use rust_top::draw::widgets::process_taskbar::{ProcessCommands, ProcessTaskBar};
use rust_top::event::{handle_mouse, keystroke_type, mouse_ticker_click, KeyOutcome};
use rust_top::draw::process_tree::ProcessWidget;
use rust_top::ui::{Color, KeyInput, MouseInput, MouseKind, Rect};
use rust_top::platform::Platform;

fn click(column: u16, row: u16) -> MouseInput {
    MouseInput { kind: MouseKind::LeftDown, column, row }
}

#[test]
fn gradient_colours() {
    let g = ColorScheme::Green;
    assert_eq!(g.get_gradient_color(10.0f64.to_bits()), Color::Green);
    assert_eq!(g.get_gradient_color(33.0f64.to_bits()), Color::LightGreen);
    assert_eq!(g.get_gradient_color(65.99f64.to_bits()), Color::LightGreen);
    assert_eq!(g.get_gradient_color(66.0f64.to_bits()), Color::Yellow);
    assert_eq!(g.get_gradient_color(90.0f64.to_bits()), Color::Red);
    assert_eq!(g.get_gradient_color(f64::NAN.to_bits()), Color::Red);
    assert_eq!(ColorScheme::Cyan.get_gradient_color(49.9f64.to_bits()), Color::Cyan);
    assert_eq!(ColorScheme::Cyan.get_gradient_color(50.0f64.to_bits()), Color::LightCyan);
    assert_eq!(ColorScheme::Red.get_gradient_color(1.0f64.to_bits()), Color::LightRed);
    assert_eq!(ColorScheme::Yellow.get_gradient_color(99.0f64.to_bits()), Color::Yellow);
    assert_eq!(ColorScheme::Blue.get_gradient_color(70.0f64.to_bits()), Color::LightBlue);
    assert_eq!(ColorScheme::Magenta.get_gradient_color((-5.0f64).to_bits()), Color::Magenta);
}

#[test]
fn bar_colours_and_label() {
    assert_eq!(BarColorScheme::Green.get_color(49.0f64.to_bits()), Color::Green);
    assert_eq!(BarColorScheme::Green.get_color(50.0f64.to_bits()), Color::Yellow);
    assert_eq!(BarColorScheme::Green.get_color(75.0f64.to_bits()), Color::Red);
    assert_eq!(BarColorScheme::Red.get_color(0.0f64.to_bits()), Color::Red);
    let mut bar = TotalCoreBar::new(BarColorScheme::Green);
    assert_eq!(bar.label(), "CPU:   0.0% ");
    bar.set_total_usage(57.25f64.to_bits());
    assert_eq!(bar.label(), format!("CPU: {:>5.1}% ", 57.25f64));
    assert_eq!(bar.color(), Color::Yellow);
}

#[test]
fn core_graph_fill_places_cores_in_order() {
    let mut g = MultiCoreGraph::new(3, ColorScheme::Cyan);
    let usages = vec![1.5f64.to_bits(), 2.5f64.to_bits(), 3.5f64.to_bits()];
    g.update_cores(&usages);
    assert_eq!(g.entries(), vec![(0, usages[0]), (1, usages[1]), (2, usages[2])]);
    // A fourth usage adds a core at the end; a known core keeps its place.
    g.update_cores(&vec![9, 8, 7, 6]);
    assert_eq!(g.entries(), vec![(0, 9), (1, 8), (2, 7), (3, 6)]);
    g.insert(1, 42);
    assert_eq!(g.entries(), vec![(0, 9), (1, 42), (2, 7), (3, 6)]);
    assert!(!g.is_empty());
    assert!(MultiCoreGraph::new(0, ColorScheme::Green).is_empty());
}

#[test]
fn core_grid_rows() {
    let mut g = MultiCoreGraph::new(3, ColorScheme::Cyan);
    g.update_cores(&vec![10, 20, 30]);
    assert_eq!(MultiCoreGraph::grid_layout(40), (2, 10));
    assert_eq!(MultiCoreGraph::grid_layout(5), (1, 0));
    assert_eq!(g.generate_core_grid(40, 10), vec![vec![(0, 10), (1, 20)], vec![(2, 30)]]);
    assert_eq!(g.generate_core_grid(40, 1), vec![vec![(0, 10), (1, 20)]]);
    assert_eq!(g.generate_core_grid(100, 10), vec![vec![(0, 10), (1, 20), (2, 30)]]);
    assert!(g.generate_core_grid(40, 0).is_empty());
    assert!(MultiCoreGraph::new(0, ColorScheme::Cyan).generate_core_grid(40, 5).is_empty());
}

#[test]
fn core_labels() {
    assert_eq!(MultiCoreGraph::core_label(3), "C3 ");
    assert_eq!(MultiCoreGraph::core_label(12), "C12");
    assert_eq!(MultiCoreGraph::core_label(123), "C123");
    assert_eq!(MultiCoreGraph::usage_label(7.6f64.to_bits()), format!(" {:>3.0}% ", 7.6f64));
    assert_eq!(MultiCoreGraph::usage_label(100.0f64.to_bits()), " 100% ");
}

#[test]
fn tick_button_steps_and_bounds() {
    let mut b = TickButton::new(2000);
    b.increment();
    assert_eq!(b.get_duration(), 2100);
    b.decrement();
    assert_eq!(b.get_duration(), 2000);
    let mut top = TickButton::new(5000);
    top.increment();
    assert_eq!(top.get_duration(), 5000);
    let mut bottom = TickButton::new(1000);
    bottom.decrement();
    assert_eq!(bottom.get_duration(), 1000);
    assert_eq!(b.duration_text(), " 2000ms ");
}

#[test]
fn tick_button_clicks() {
    let mut b = TickButton::new(2000);
    assert_eq!(b.duration_click(click(1, 0)), TickCounter::NoChange);
    b.set_render_area(Rect { x: 60, y: 0, width: 17, height: 1 });
    assert_eq!(b.duration_click(click(61, 0)), TickCounter::Decrement);
    // `" - 2000ms  + "` is 13 cells wide; its last three increment.
    assert_eq!(b.duration_click(click(71, 0)), TickCounter::Increment);
    assert_eq!(b.duration_click(click(66, 0)), TickCounter::NoChange);
    assert_eq!(b.duration_click(click(61, 1)), TickCounter::NoChange);
    let moved = MouseInput { kind: MouseKind::Other, column: 61, row: 0 };
    assert_eq!(b.duration_click(moved), TickCounter::NoChange);
    mouse_ticker_click(click(61, 0), &mut b);
    assert_eq!(b.get_duration(), 1900);
    mouse_ticker_click(click(72, 0), &mut b);
    assert_eq!(b.get_duration(), 2000);
}

#[test]
fn taskbar_clicks_and_signals() {
    let mut bar = ProcessTaskBar::new();
    assert_eq!(bar.command(), ProcessCommands::Select);
    assert_eq!(bar.handle_click(click(0, 0)), None);
    bar.set_render_area(Rect { x: 10, y: 5, width: 40, height: 1 });
    assert_eq!(bar.handle_click(click(12, 5)), Some(ProcessCommands::Select));
    assert_eq!(bar.handle_click(click(17, 5)), Some(ProcessCommands::Kill));
    assert_eq!(bar.command(), ProcessCommands::Kill);
    assert_eq!(bar.handle_click(click(22, 5)), None);
    assert_eq!(bar.command(), ProcessCommands::Kill);
    assert_eq!(bar.signal_process(42), Some(42));
    assert_eq!(bar.signal_process(0), None);
    bar.handle_click(click(10, 5));
    assert_eq!(bar.signal_process(42), None);
    assert_eq!(ProcessTaskBar::buttons(0), vec![("Select ", true), ("Kill ", false)]);
    assert_eq!(ProcessTaskBar::buttons(7), vec![("Select ", false), ("Kill ", true)]);
}

#[test]
fn mouse_events() {
    let mut tick = TickButton::new(2000);
    tick.set_render_area(Rect { x: 0, y: 0, width: 17, height: 1 });
    let mut bar = ProcessTaskBar::new();
    bar.set_render_area(Rect { x: 0, y: 10, width: 40, height: 1 });
    assert!(handle_mouse(click(8, 10), &mut tick, &mut bar));
    assert!(!handle_mouse(click(1, 10), &mut tick, &mut bar));
    assert!(!handle_mouse(click(1, 0), &mut tick, &mut bar));
    assert_eq!(tick.get_duration(), 1900);
    let up = MouseInput { kind: MouseKind::Other, column: 8, row: 10 };
    assert!(!handle_mouse(up, &mut tick, &mut bar));
}

#[test]
fn keys() {
    let mut tick = TickButton::new(2000);
    let mut w = ProcessWidget::new();
    let mut popup = AboutPopUp { visable: false };
    // `+`/`=` refresh faster, `-`/`_` slower.
    assert_eq!(keystroke_type(KeyInput::Char('+'), &mut tick, &mut w, &mut popup), KeyOutcome::Continue);
    assert_eq!(tick.get_duration(), 1900);
    assert_eq!(keystroke_type(KeyInput::Char('_'), &mut tick, &mut w, &mut popup), KeyOutcome::Continue);
    assert_eq!(tick.get_duration(), 2000);
    keystroke_type(KeyInput::Char('='), &mut tick, &mut w, &mut popup);
    assert_eq!(tick.get_duration(), 1900);
    keystroke_type(KeyInput::Char('-'), &mut tick, &mut w, &mut popup);
    keystroke_type(KeyInput::Char('-'), &mut tick, &mut w, &mut popup);
    assert_eq!(tick.get_duration(), 2100);
    keystroke_type(KeyInput::Char('p'), &mut tick, &mut w, &mut popup);
    assert!(popup.visable);
    assert_eq!(keystroke_type(KeyInput::Char('k'), &mut tick, &mut w, &mut popup), KeyOutcome::Kill);
    // While typing a query, keys edit it and quit nothing.
    keystroke_type(KeyInput::Char('/'), &mut tick, &mut w, &mut popup);
    assert!(w.is_searching());
    assert_eq!(keystroke_type(KeyInput::Char('q'), &mut tick, &mut w, &mut popup), KeyOutcome::Continue);
    assert_eq!(w.search_input, "q");
    keystroke_type(KeyInput::Backspace, &mut tick, &mut w, &mut popup);
    assert_eq!(w.search_input, "");
    keystroke_type(KeyInput::Char('b'), &mut tick, &mut w, &mut popup);
    keystroke_type(KeyInput::Enter, &mut tick, &mut w, &mut popup);
    assert!(!w.is_searching());
    assert!(!w.is_filter_input_active());
    assert_eq!(keystroke_type(KeyInput::Char('q'), &mut tick, &mut w, &mut popup), KeyOutcome::Continue);
    keystroke_type(KeyInput::Esc, &mut tick, &mut w, &mut popup);
    assert_eq!(w.search_input, "");
    assert_eq!(keystroke_type(KeyInput::Esc, &mut tick, &mut w, &mut popup), KeyOutcome::Quit);
}

#[test]
fn temp_bar_readings() {
    let mut bar = TempBar::new(BarColorScheme::Green);
    assert_eq!(bar.get_height(Platform::Linux), 3);
    let readings = vec![
        ("coretemp Package id 0".to_string(), Some(55.0f32.to_bits())),
        ("nvme Composite".to_string(), Some(40.5f32.to_bits())),
        ("spd5118".to_string(), Some(35.0f32.to_bits())),
        ("iwlwifi_1 MT".to_string(), None),
        ("acpitz".to_string(), Some(20.0f32.to_bits())),
    ];
    bar.update(&readings, Platform::Linux);
    assert_eq!(
        bar.active_sensors(),
        vec![("CPU", 55.0f32.to_bits()), ("Disk", 40.5f32.to_bits()), ("DDR", 35.0f32.to_bits())]
    );
    // CPU and disk, with memory counted twice: four, two lines.
    assert_eq!(bar.get_height(Platform::Linux), 4);
    assert_eq!(TempBar::sensor_label("CPU", 55.0f32.to_bits()), "CPU: 55.0°C ");
    assert_eq!(TempBar::bar_width(60, 3), 16);
    assert_eq!(TempBar::bar_width(20, 3), 0);
}

#[test]
fn temp_bar_on_macos() {
    let mut bar = TempBar::new(BarColorScheme::Green);
    let readings = vec![
        ("PMU tdie1".to_string(), Some(50.0f32.to_bits())),
        ("PMU tdie2".to_string(), Some(60.0f32.to_bits())),
        ("NAND CH0 temp".to_string(), Some(35.0f32.to_bits())),
        ("spd".to_string(), Some(30.0f32.to_bits())),
    ];
    bar.update(&readings, Platform::MacOs);
    assert_eq!(bar.active_sensors(), vec![("CPU", 50.0f32.to_bits()), ("Disk", 35.0f32.to_bits())]);
    assert_eq!(bar.get_height(Platform::MacOs), 3);
}

#[test]
fn process_button_and_header() {
    let mut b = ProcessButton::new();
    let other = ProcessButton { command: ProcessCommands::Kill };
    let back = b.signal_process(other);
    assert_eq!(back.command, ProcessCommands::Kill);
    assert_eq!(b.command, ProcessCommands::Select);
    assert_eq!(ProcessCommands::bottom_header(ProcessCommands::Kill), "kill");
    assert_eq!(ProcessCommands::bottom_header(ProcessCommands::Select), "select");
}

#[test]
fn core_histories_push_and_trim() {
    let mut g = CoreHistory::new(2, ColorScheme::Green);
    assert_eq!(g.latest(), vec![(0, 0), (1, 0)]);
    g.push(0, 1.0f64.to_bits());
    g.push(0, 2.0f64.to_bits());
    g.push(0, 3.0f64.to_bits());
    g.push(1, 7.0f64.to_bits());
    g.push(5, 9.0f64.to_bits());
    assert_eq!(g.latest(), vec![(0, 3.0f64.to_bits()), (1, 7.0f64.to_bits())]);
    g.trim_to_width(1);
    assert_eq!(g.latest(), vec![(0, 3.0f64.to_bits()), (1, 7.0f64.to_bits())]);
    assert_eq!(CoreHistory::points_kept(40), 10);
    assert_eq!(CoreHistory::points_kept(50), 15);
    assert_eq!(g.generate_core_grid(40, 5), vec![vec![(0, 3.0f64.to_bits()), (1, 7.0f64.to_bits())]]);
    assert_eq!(g.color_scheme(), ColorScheme::Green);
}
