[package]
name = "slumber"
version = "0.1.0"
edition = "2021"
publish = false

[dependencies]
chrono = "*"
indexmap = "*"
ratatui = "*"
reqwest = { version = "*", default-features = false }
serde_json = "*"
serde_json_path = "*"
tokio = { version = "*", features = ["rt", "macros", "sync"] }
