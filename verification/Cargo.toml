[package]
name = "standx_connector"
version = "0.1.0"
edition = "2021"
publish = false

[dependencies]
hashbrown = "=0.15.5"
chrono = "=0.4.45"
base64 = "=0.22.1"
hex = "=0.4.3"
ed25519-dalek = { version = "=2.2.0", features = ["pkcs8", "pem"] }
uuid = { version = "=1.29.0", features = ["v4"] }
rand = "=0.8.8"
serde = { version = "=1.0.229", features = ["derive"] }
serde_json = "=1.0.154"
toml = "=0.8.23"
thiserror = "=2.0.21"
tracing = "=0.1.44"
tokio = { version = "=1.54.1", features = ["rt-multi-thread", "macros", "sync", "time", "net"] }
tokio-tungstenite = { version = "=0.30.0", features = ["rustls-tls-webpki-roots"] }
futures-util = { version = "=0.3.34", features = ["sink"] }
reqwest = { version = "=0.12.28", default-features = false, features = ["json", "rustls-tls"] }
hftbacktest = { version = "=0.9.4", default-features = false, features = ["backtest"] }
