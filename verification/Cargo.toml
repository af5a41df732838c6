[package]
name = "kurou"
version = "0.23.0"
edition = "2021"
publish = false

[dependencies]
anyhow = "1"
axum = "0.8"
base64 = "=0.22.1"
clap = { version = "4", features = ["derive", "env"] }
hmac = "=0.12.1"
reqwest = { version = "0.12", default-features = false, features = ["rustls-tls"] }
rmcp = { version = "=1.6.0", features = ["server", "macros", "transport-io", "transport-streamable-http-server"] }
rmcp-macros = "=1.6.0"
rusqlite = { version = "=0.37.0", features = ["bundled"] }
serde = { version = "1", features = ["derive"] }
serde_json = "=1.0.154"
serenity = { version = "=0.12.5", default-features = false, features = ["builder", "client", "gateway", "http", "model", "rustls_backend"] }
sha2 = "=0.10.9"
time = { version = "=0.3.55", features = ["formatting", "parsing"] }
tokio = { version = "1", features = ["macros", "net", "rt-multi-thread", "signal", "sync", "time"] }
tokio-stream = { version = "0.1", features = ["sync"] }
tokio-util = "0.7"
tracing = "0.1"
tracing-subscriber = { version = "0.3", features = ["env-filter"] }
url = "=2.5.8"
uuid = { version = "=1.29.0", features = ["v4"] }
