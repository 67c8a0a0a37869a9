[package]
name = "openclaw_sync"
version = "0.1.0"
edition = "2021"
publish = false

[dependencies]
serde_json = "1"
serde = { version = "1", features = ["derive"] }
dirs = "5"
sysinfo = "0.30"
ureq = "2"
