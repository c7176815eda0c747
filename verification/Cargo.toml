[package]
name = "kaioken"
version = "0.1.0"
edition = "2021"
publish = false

[dependencies]
http = "=1.5.0"
regex-lite = "=0.1.9"
hdrhistogram = { version = "=7.6.0", default-features = false }
bytes = "=1.12.1"
chrono = { version = "=0.4.45", features = ["serde"] }
clap = { version = "=4.6.7", features = ["derive"] }
clap_complete = "=4.6.11"
clap_mangen = "=0.2.33"
crossterm = "=0.28.1"
futures-util = { version = "=0.3.34", features = ["sink"] }
hostname = "=0.4.2"
humantime = "=2.4.0"
humantime-serde = "=1.1.1"
ratatui = "=0.29.0"
reqwest = { version = "=0.12.28", default-features = false, features = ["rustls-tls", "cookies", "gzip", "brotli", "multipart", "http2"] }
rusqlite = { version = "=0.32.1", features = ["bundled"] }
serde = { version = "=1.0.229", features = ["derive"] }
serde_json = "=1.0.154"
tokio = { version = "=1.54.1", features = ["full"] }
tokio-tungstenite = "=0.24.0"
tokio-util = "=0.7.20"
toml = "=0.8.23"
tracing = "=0.1.44"
tracing-subscriber = { version = "=0.3.23", features = ["env-filter"] }
tonic = { version = "0.12", default-features = false, features = ["transport", "codegen", "tls", "tls-native-roots"] }
h3 = "*"
h3-quinn = "*"
quinn = { version = "0.11", default-features = false, features = ["runtime-tokio", "rustls-ring"] }
rustls = { version = "0.23", default-features = false, features = ["ring", "std", "logging", "tls12"] }
rustls-native-certs = "0.8"
