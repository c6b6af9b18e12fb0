[package]
name = "eustress_engine"
version = "0.1.0"
edition = "2021"
publish = false

[dependencies]
chrono = "=0.4.45"
serde = { version = "=1.0.229", features = ["derive"] }
toml = "=0.8.23"
ron = "=0.8.1"
dirs = "=5.0.1"
sysinfo = { version = "0.30", default-features = false }
