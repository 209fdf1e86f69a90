[package]
name = "a2a-rs"
version = "0.1.0"
edition = "2021"
publish = false

[dependencies]
uuid = { version = "=1.29.0", features = ["v4", "v7"] }
chrono = "=0.4.45"
tokio = { version = "=1.54.1", features = ["full"] }
tokio-stream = "=0.1.19"
futures = "=0.3.34"
async-trait = "=0.1.92"
serde = { version = "=1.0.229", features = ["derive"] }
serde_json = "=1.0.154"
serde_yaml = "=0.9.34"
clap = { version = "=4.6.7", features = ["derive", "env"] }
thiserror = "=2.0.21"
reqwest = { version = "=0.12.28", default-features = false, features = ["json", "stream"] }
axum = "=0.8.9"

[dev-dependencies]
tempfile = "=3.27.0"
