[package]
name = "ffmpegeasy"
version = "0.1.0"
edition = "2021"
publish = false

[dependencies]
anyhow = "1"
axum = { version = "0.6", features = ["ws"] }
chrono = "0.4"
clap = { version = "4", features = ["derive", "env"] }
futures = "0.3"
hostname = "0.3"
num_cpus = "1"
pathdiff = "0.2"
reqwest = { version = "0.11", default-features = false, features = ["stream"] }
serde = { version = "1", features = ["derive"] }
serde_json = "1"
tokio = { version = "1", features = ["full"] }
tokio-tungstenite = "0.20"
tokio-util = { version = "0.7", features = ["io"] }
tower-http = { version = "0.4", features = ["cors"] }
tracing = "0.1"
tracing-subscriber = { version = "0.3", features = ["env-filter"] }
url = "2"
urlencoding = "2"
uuid = { version = "1", features = ["v4"] }
walkdir = "2"
