pub mod units;
