[package]
name = "vt_core"
version = "0.1.0"
edition = "2021"
publish = false

[dependencies]
anyhow = "=1.0.104"
chrono = { version = "=0.4.45", features = ["serde"] }
dirs = "=5.0.1"
hound = "=3.5.1"
serde = { version = "=1.0.229", features = ["derive"] }
serde_json = "=1.0.154"
sha2 = "=0.10.9"
sysinfo = "=0.30.13"
thiserror = "=1.0.69"
toml = "=0.8.23"
tracing = "=0.1.44"
ureq = { version = "=2.12.1", features = ["json"] }
whisper-rs = "=0.15.1"
