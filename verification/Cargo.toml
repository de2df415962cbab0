[package]
name = "nexus_cli"
version = "0.1.0"
edition = "2021"
publish = false

[dependencies]
uuid = { version = "1", features = ["v4"] }
tokio = { version = "1", features = ["full"] }
sysinfo = "*"
chrono = "0.4"
crossterm = "*"
serde = { version = "1", features = ["derive"] }
serde_json = "1"
home = "*"
