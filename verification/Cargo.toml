[package]
name = "mdk_parse"
version = "0.1.0"
edition = "2021"
publish = false

[dependencies]
base64 = "0.22"
png = "0.17"
euclid = "0.22"
serde = { version = "1", features = ["derive"] }
serde_json = "1"
