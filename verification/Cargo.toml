[package]
name = "extension_mirror"
version = "0.1.0"
edition = "2021"
publish = false

[dependencies]
anyhow = "1"
async-channel = "2"
axum = "0.7"
chrono = "0.4"
clap = { version = "4", features = ["derive"] }
compact_str = "0.8"
console = "0.15"
indicatif = "0.17"
pathdiff = "0.2"
reqwest = { version = "0.12", default-features = false, features = ["rustls-tls"] }
serde = { version = "1", features = ["derive"] }
serde_json = "1"
tantivy = "0.24"
tokio = { version = "1", features = ["full"] }
tokio-util = { version = "0.7", features = ["io"] }
