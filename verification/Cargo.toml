[package]
name = "ion_sense"
version = "0.1.0"
edition = "2021"
publish = false

[dependencies]
tokio = { version = "1", features = ["sync", "rt", "time", "macros", "net"] }
keyring = "*"
dirs = "*"
serde = { version = "1", features = ["derive"] }
serde_json = "1"
anyhow = "1"
notify = "*"
async-imap = "*"
futures = "0.3"
rustls-platform-verifier = "*"
tokio-rustls = "*"
serenity = "*"
battery = "*"
sysinfo = "*"
