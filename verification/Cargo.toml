[package]
name = "yulink"
version = "0.1.0"
edition = "2021"
publish = false

[dependencies]
base64 = "0.22"
serde = { version = "1", features = ["derive"] }
serde_json = "1"
log = "0.4"
time = { version = "0.3", features = ["formatting", "local-offset"] }
