[package]
name = "gigachat"
version = "0.1.0"
edition = "2021"
publish = false

[dependencies]
hex = "=0.4.3"
regex = "=1.13.1"
urlencoding = "=2.1.3"
rand = "=0.8.8"
sha256 = "=1.6.0"
base64 = "=0.21.7"
serde = { version = "=1.0.229", features = ["derive"] }
serde_json = "=1.0.154"
chrono = "=0.4.45"
async-channel = "=2.5.0"
tokio = { version = "=1.54.1", features = ["rt-multi-thread", "time", "macros"] }
reqwest = { version = "=0.11.27", default-features = false, features = ["rustls-tls"] }
irc = { version = "=1.1.0", default-features = false, features = ["tls-rust"] }
tokio-tungstenite = { version = "=0.21.0", features = ["rustls-tls-webpki-roots"] }
warp = { version = "=0.3.7", default-features = false }
futures = "=0.3.34"
backoff = "0.4"
