[package]
name = "github_deploy_helper"
version = "0.1.0"
edition = "2021"
publish = false

[dependencies]
anyhow = "1"
arc-swap = "1"
axum = "0.8"
base64 = "0.22"
clap = { version = "4", features = ["derive"] }
dashmap = "6"
glob = "0.3"
hex = "0.4"
hmac = "0.13"
notify = "8"
regex = "1"
reqwest = { version = "0.12", default-features = false, features = ["json", "rustls-tls"] }
rustls = "0.23"
serde = { version = "1", features = ["derive"] }
serde_json = "1"
sha2 = "0.11"
takecell = "=0.1.1"
teloxide = { version = "0.13", default-features = false, features = ["rustls"] }
tokio = { version = "1", features = ["full"] }
toml = "0.8"
tracing = "0.1"
tracing-appender = "0.2"
tracing-subscriber = { version = "0.3", features = ["env-filter"] }
