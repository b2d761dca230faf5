[package]
name = "peakbot"
version = "0.1.0"
edition = "2021"
publish = false

[dependencies]
anyhow = "1"
async-trait = "0.1"
axum = "=0.8.9"
chrono = "0.4"
clap = { version = "=4.6.7", features = ["derive"] }
dirs = "=7.0.0"
futures = "0.3"
http = "=1.5.0"
open = "=5.4.5"
reqwest = "=0.13.5"
rig-core = { version = "=0.40.0", features = ["rmcp"] }
rmcp = { version = "=1.8.0", features = ["client", "auth", "transport-child-process", "transport-streamable-http-client-reqwest"] }
serde = { version = "1", features = ["derive"] }
serde_json = "=1.0.154"
serde_yaml = "0.9"
thiserror = "=2.0.21"
tokio = { version = "1", features = ["full"] }
tracing = "0.1"
tracing-subscriber = { version = "0.3", features = ["env-filter"] }
uuid = { version = "=1.29.0", features = ["v4"] }
