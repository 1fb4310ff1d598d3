[package]
name = "polymenu"
version = "0.1.0"
edition = "2021"
publish = false

[dependencies]
anyhow = "1"
axum = "0.8"
axum-extra = { version = "0.10", features = ["typed-header", "cookie"] }
base64 = "0.22"
clap = { version = "4", features = ["derive"] }
csv = "1"
dirs = "5"
futures-util = "0.3"
fuzzy-matcher = "0.3"
hyper-util = { version = "0.1", features = ["client-legacy", "http1", "tokio"] }
infer = "0.15"
killport = "1.1"
once_cell = "1"
rand = "0.9"
serde = { version = "1", features = ["derive"] }
serde_json = "1"
shellexpand = "3"
tauri-icns = "0.1"
tokio = { version = "1", features = ["full"] }
tokio-util = "0.7"
toml = "0.8"
tower-http = { version = "0.6", features = ["fs", "trace", "compression-full"] }
tracing-subscriber = { version = "0.3", features = ["env-filter"] }
