[package]
name = "session_config"
version = "0.1.0"
edition = "2021"
publish = false

[dependencies]
futures = "0.3"
thiserror = "2"
tokio = { version = "1", features = ["rt", "time", "sync"] }
toml = "0.9"
tracing = "0.1"

[dev-dependencies]
base64 = "0.22"
