[package]
name = "hyprkbd"
version = "0.1.0"
edition = "2021"
publish = false

[dependencies]
log = "*"
systemd-journal-logger = "*"
tokio = { version = "*", features = ["io-util", "macros", "net", "rt"] }
