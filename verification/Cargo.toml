[package]
name = "filter_catalog"
version = "0.1.0"
edition = "2021"
publish = false

[dependencies]
regex = "1"
serde = { version = "1", features = ["derive"] }
serde_json = "1"
base64 = "0.21"
futures = "0.3"
