[package]
name = "delta_kernel"
version = "0.1.0"
edition = "2021"
publish = false

[dependencies]
arrow-schema = "58"
bytes = "1"
chrono = "0.4"
itertools = "0.14"
parquet = { version = "58", default-features = false, features = ["arrow"] }
serde = { version = "1", features = ["derive"] }
serde_json = "1"
strum = { version = "0.27", features = ["derive"] }
thiserror = "2"
tracing = "0.1"
url = "2"
