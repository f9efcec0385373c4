[package]
name = "process_monitor"
version = "0.1.0"
edition = "2021"
publish = false

[dependencies]
chrono = "0.4"
crossterm = "0.25"
procfs = "0.14"
sysinfo = "0.22"
tui = "0.19"
