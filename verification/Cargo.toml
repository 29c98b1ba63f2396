[package]
name = "things_sak"
version = "0.1.0"
edition = "2021"
publish = false

[dependencies]
percent-encoding = "=2.3.2"
rand = "=0.9.5"
subtle = "=2.6.1"
anyhow = "=1.0.104"
axum = "=0.8.9"
clap = { version = "=4.6.7", features = ["derive", "env"] }
rmcp = { version = "=3.8.0", features = ["server", "macros", "transport-io", "transport-streamable-http-server"] }
schemars = "=1.2.3"
serde = { version = "=1.0.229", features = ["derive"] }
serde_json = "=1.0.154"
tokio = { version = "=1.54.1", features = ["full"] }
