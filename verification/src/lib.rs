//! A terminal system monitor: the verified core of its number formatting,
//! layout arithmetic, widget state and input handling.

pub mod text;
pub mod order;
pub mod decimal;
pub mod bignum;
pub mod binary;
pub mod tools;
pub mod data;
pub mod ui;
pub mod platform;
pub mod draw;
pub mod unix;
pub mod processes;
pub mod event;
pub mod layout;
pub mod collection;
