pub mod processdata;
