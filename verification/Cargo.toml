[package]
name = "code_upload"
version = "0.1.0"
edition = "2021"
publish = false

[dependencies]
base64 = "0.13"
failure = "0.1"
log = "0.4"
reqwest = { version = "0.11", features = ["blocking", "json"] }
serde = { version = "1", features = ["derive"] }
serde_json = "1"
