[package]
name = "simulcast_mpv"
version = "3.0.0"
edition = "2021"
publish = false

[dependencies]
anyhow = "1"
aws-lc-rs = "1"
base64 = "0.22"
blake3 = "1"
chrono = "0.4"
clap = { version = "4", features = ["derive", "env"] }
clap-verbosity-flag = "*"
directories = "*"
dotenvy = "0.15"
flexi_logger = "*"
futures = "0.3"
http = "1"
interprocess = "2"
log = "0.4"
log-panics = "2"
rand = "*"
reqwest = { version = "0.12", default-features = false, features = ["rustls-tls"] }
rustls = "0.23"
semver = { version = "1", features = ["serde"] }
serde = { version = "1", features = ["derive"] }
serde_json = "1"
tokio = { version = "1", features = ["full"] }
tokio-tungstenite = { version = "*", features = ["rustls-tls-webpki-roots"] }
