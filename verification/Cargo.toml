[package]
name = "cwal_core"
version = "0.1.0"
edition = "2021"
publish = false

[dependencies]
lru = "*"
serde = { version = "*", features = ["derive"] }
sysinfo = "*"
netstat = "*"
notify = "*"
chrono = "*"
dirs = "*"
chrome-cache-parser = "*"
showfile = "*"
