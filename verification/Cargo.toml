[package]
name = "fetch-rs"
version = "0.1.0"
edition = "2021"
publish = false

[dependencies]
anyhow = "=1.0.104"
chrono = "=0.4.45"
octocrab = "=0.41.2"
serde = { version = "=1.0.229", features = ["derive"] }
tokio = { version = "=1.54.1", features = ["macros", "rt-multi-thread"] }
toml = "=1.1.8"
tracing = "=0.1.44"
tracing-subscriber = "=0.3.23"
