[package]
name = "ai-runtime"
version = "0.1.0"
edition = "2021"
publish = false

[dependencies]
bytes = "1"
dotenvy = "0.15"
futures-core = "0.3"
futures-util = { version = "0.3", features = ["sink"] }
livekit-api = { version = "0.4", default-features = false, features = ["access-token"] }
reqwest = { version = "0.12", default-features = false, features = ["json", "stream", "rustls-tls"] }
serde = { version = "1", features = ["derive"] }
serde_json = "=1.0.154"
thiserror = "2"
tokio = { version = "1", features = ["full"] }
tokio-tungstenite = { version = "0.30", features = ["rustls-tls-webpki-roots"] }
tokio-util = "0.7"
tracing = "0.1"
