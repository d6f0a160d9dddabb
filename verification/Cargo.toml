[package]
name = "mcp-chat"
version = "0.1.0"
edition = "2021"
publish = false

[dependencies]
anyhow = "1"
base64 = "=0.22.1"
chrono = "=0.4.45"
clap = { version = "4", features = ["derive", "env"] }
dotenvy = "0.15"
futures = "0.3"
http = "=1.5.0"
indicatif = "0.18"
nu-ansi-term = "=0.50.3"
reqwest = { version = "0.13", default-features = false, features = ["json", "rustls"] }
rmcp = { version = "1.8", features = ["client", "transport-streamable-http-client-reqwest"] }
rustyline = "19"
serde = { version = "1", features = ["derive"] }
serde_json = "=1.0.154"
sse-stream = "0.2"
termimad = "0.35"
thiserror = "2"
tokio = { version = "1", features = ["full"] }
