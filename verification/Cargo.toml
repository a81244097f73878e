[package]
name = "thalora_browser_apis"
version = "0.1.0"
edition = "2021"
publish = false

[dependencies]
base64 = "0.22"
sha2 = "0.10"
url = "2"
uuid = { version = "1", features = ["v4"] }
dirs = "5"
once_cell = "1"
parking_lot = "0.12"
serde = { version = "1", features = ["derive"] }
