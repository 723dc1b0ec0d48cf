[package]
name = "supermdx"
version = "0.1.0"
edition = "2021"
publish = false

[dependencies]
anyhow = "=1.0.104"
dashmap = "=6.2.1"
env_logger = "=0.11.11"
markdown = "=1.0.0"
serde = { version = "=1.0.229", features = ["derive"] }
tokio = { version = "=1.53.2", features = ["full"] }
tokio-stream = "=0.1.19"
tokio-util = { version = "=0.7.19", features = ["io"] }
toml = "=1.1.7"
tower-lsp = "=0.20.0"

[dev-dependencies]
tempfile = "=3.27.0"
