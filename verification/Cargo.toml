[package]
name = "rust_browser_mcp"
version = "0.1.0"
edition = "2021"
publish = false

[dependencies]
anyhow = "=1.0.104"
askama = "=0.12.1"
axum = "=0.8.9"
base64 = "=0.22.1"
chrono = "=0.4.45"
clap = { version = "=4.6.7", features = ["derive"] }
fantoccini = "=0.21.5"
futures = "=0.3.34"
oauth2 = "=4.4.2"
once_cell = "=1.21.4"
openidconnect = "=3.5.0"
reqwest = { version = "=0.12.28", features = ["json"] }
rmcp = { version = "=0.2.1", features = ["server", "transport-io", "transport-worker", "transport-streamable-http-server"] }
serde = { version = "=1.0.229", features = ["derive"] }
serde_json = "=1.0.154"
tokio = { version = "=1.54.1", features = ["full"] }
tower = "=0.5.3"
tower-http = { version = "=0.6.11", features = ["cors"] }
tracing = "=0.1.44"
tracing-subscriber = { version = "=0.3.23", features = ["env-filter"] }
url = "=2.5.8"
uuid = { version = "=1.29.0", features = ["v4"] }
