[package]
name = "mostro_client"
version = "0.1.0"
edition = "2021"
publish = false

[dependencies]
log = { version = "0.4", features = ["std"] }
tokio = { version = "1", default-features = false, features = ["sync", "rt", "time"] }
anyhow = "1"
web-sys = { version = "0.3", features = ["console"] }
android_logger = "*"
