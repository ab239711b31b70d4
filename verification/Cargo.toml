[package]
name = "rustling"
version = "0.1.0"
edition = "2021"
publish = false

[dependencies]
anyhow = "=1.0.104"
chrono = "=0.4.45"
feed-rs = "=3.0.0"
reqwest = { version = "=0.13.5", features = ["json", "query"] }
rmcp = { version = "=3.8.0", features = ["client", "transport-child-process", "transport-streamable-http-client-reqwest", "reqwest"] }
rusqlite = { version = "=0.41.1", features = ["bundled"] }
serde = { version = "=1.0.229", features = ["derive"] }
serde_json = "=1.0.154"
tokio = { version = "=1.54.1", features = ["full"] }
toml = "=1.1.8"
tracing = "=0.1.44"
tracing-subscriber = { version = "=0.3.23", features = ["env-filter"] }
