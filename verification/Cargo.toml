[package]
name = "liveview"
version = "0.1.0"
edition = "2021"
publish = false

[dependencies]
url = "*"
tokio = { version = "*", features = ["macros", "rt-multi-thread", "net", "io-util", "time", "sync", "fs"] }
axum = "*"
reqwest = { version = "*", default-features = false, features = ["rustls-tls", "json", "stream"] }
serde = { version = "*", features = ["derive"] }
serde_json = "*"
chrono = "*"
tokio-rustls = { version = "*", default-features = false, features = ["ring", "tls12"] }
rustls-pki-types = "*"
tokio-util = "*"
tokio-stream = "*"
futures-util = "*"
http = "*"
anyhow = "*"
tower-http = { version = "*", features = ["cors"] }
bytes = "*"
