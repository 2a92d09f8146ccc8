[package]
name = "warp_app"
version = "0.1.0"
edition = "2021"
publish = false

[dependencies]
url = "2"
thousands = "0.2"
serde = { version = "1", features = ["derive"] }
serde_yaml = "0.9"
dirs = "5"
uuid = { version = "1", features = ["v4"] }
anyhow = "1"
log = "0.4"
