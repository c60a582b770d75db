[package]
name = "nanocld"
version = "0.1.0"
edition = "2021"
rust-version = "1.95"
publish = false

[dependencies]
rand = "=0.8.8"
chrono = "=0.4.45"
log = "0.4"
futures = "0.3"
serde = { version = "1", features = ["derive"] }
serde_json = "1"
ntex = { version = "2", features = ["tokio"] }
bollard-next = "=0.18.1"
nanocl_error = { version = "=0.6.0", features = ["io", "http", "bollard", "serde_json"] }
