pub mod about_popup;
pub mod cpu_bar;
pub mod cpu_graph;
pub mod disk_table;
pub mod process_taskbar;
pub mod temp_widget;
