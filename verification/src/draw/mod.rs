pub mod bar;
pub mod graph;
pub mod histogram;
pub mod misc;
pub mod network;
pub mod proc_misc;
pub mod process_order;
pub mod process_tree;
pub mod widgets;
