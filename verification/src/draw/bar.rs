//! Bar colours (shared with the CPU bar widget).

pub use crate::draw::widgets::cpu_bar::BarColorScheme;
