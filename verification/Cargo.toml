[package]
name = "toolu-runner"
version = "0.1.0"
edition = "2021"
publish = false

[dependencies]
async-trait = "0.1"
axum = "0.8"
blake3 = { version = "1", features = ["pure"] }
bollard = "0.19"
chrono = "0.4"
clap = { version = "4", features = ["derive"] }
crossterm = "0.28"
fastrand = "2"
flate2 = "1"
futures-util = "0.3"
glob = "0.3"
hostname = "0.4"
opendal = { version = "0.53", default-features = false, features = ["services-s3"] }
ratatui = "0.29"
reqwest = { version = "0.12", default-features = false, features = ["json"] }
serde = { version = "1", features = ["derive"] }
serde_json = "1"
serde_yaml = "0.9"
sha2 = "0.10"
tar = "0.4"
tokio = { version = "1", features = ["full"] }
tokio-util = "0.7"
tracing = "0.1"
url = "2"
uuid = { version = "1", features = ["v4"] }
