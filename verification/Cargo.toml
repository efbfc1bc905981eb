[package]
name = "bandwidth_monitor"
version = "0.1.0"
edition = "2021"
publish = false

[dependencies]
chrono = "0.4"
csv = "1"
lazy_static = "1"
pnet = "0.34"
serde = { version = "1", features = ["derive"] }
anyhow = "1"
