[package]
name = "rust_top"
version = "0.1.0"
edition = "2021"
publish = false

[dependencies]
indexmap = "*"
sysinfo = "*"
ratatui = "*"
crossterm = "*"
tokio = { version = "*", features = ["macros", "rt-multi-thread"] }
rsntp = "*"
chrono = "*"
local-ip-address = "*"
cache-size = "*"
sysctl = "*"
signal-hook = "*"
libc = "*"
