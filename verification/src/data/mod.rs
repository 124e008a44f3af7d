pub mod cpu;
pub mod mem;
pub mod os;
pub mod info;
pub mod disk;
pub mod lscpu;
pub mod network;
pub mod temp;
pub mod clock;
pub mod darwin;
