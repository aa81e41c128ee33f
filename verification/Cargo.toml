[package]
name = "kex"
version = "0.1.0"
edition = "2021"
publish = false

[dependencies]
clap = { version = "4", features = ["derive"] }
crossterm = { version = "=0.29.0", features = ["event-stream"] }
futures-lite = "2"
futures-util = "0.3"
hostname = "=0.4.2"
machine-uid = "=0.6.0"
open = "=5.4.5"
portable-pty = "=0.9.0"
reqwest = { version = "=0.13.5", default-features = false, features = ["json", "stream", "rustls"] }
serde = { version = "1", features = ["derive"] }
serde_json = "=1.0.154"
tokio = { version = "1", features = ["full"] }
tokio-tungstenite = { version = "=0.30.0", features = ["rustls-tls-webpki-roots"] }
vt100 = "=0.16.2"
