[package]
name = "tmux_sysmon"
version = "0.1.0"
edition = "2021"
publish = false

[dependencies]
battery = "0.7"
clap = { version = "4", features = ["derive"] }
sysinfo = { version = "0.30", default-features = false }
