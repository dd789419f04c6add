[package]
name = "kron"
version = "0.1.0"
edition = "2021"
publish = false

[dependencies]
axum = "0.7"
chrono = { version = "0.4", features = ["serde"] }
chrono-tz = "0.9"
clap = { version = "4", features = ["derive"] }
cron = "0.12"
fs2 = "0.4"
openraft = { version = "0.9", features = ["serde", "storage-v2"] }
pyo3 = { version = "0.21", features = ["abi3-py38", "chrono"] }
reqwest = { version = "0.12", default-features = false, features = ["json"] }
serde = { version = "1", features = ["derive"] }
serde_json = "1"
sha2 = "0.10"
thiserror = "1"
tokio = { version = "1", features = ["full"] }
ulid = "1"
