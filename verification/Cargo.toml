[package]
name = "flash_watcher"
version = "0.1.0"
edition = "2021"
publish = false

[dependencies]
anyhow = "1"
chrono = "0.4"
clap = { version = "4", features = ["derive"] }
colored = "2"
glob = "0.3"
notify = "6"
serde = { version = "1", features = ["derive"] }
serde_yaml = "0.9"
sysinfo = "0.30"
walkdir = "2"
