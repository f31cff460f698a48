[package]
name = "artemis"
version = "0.1.0"
edition = "2021"
publish = false

[dependencies]
anyhow = "1"
chrono = { version = "0.4", features = ["serde"] }
clap = { version = "4", features = ["derive"] }
regex = "1"
serde = { version = "1", features = ["derive"] }
serde_json = "1"
signal-hook = "0.3"
sysinfo = "0.33"
toml = "0.8"
ureq = { version = "2", default-features = false, features = ["json"] }
uuid = { version = "1", features = ["v4"] }
