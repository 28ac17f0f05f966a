[package]
name = "authenticator"
version = "0.1.0"
edition = "2021"
publish = false

[dependencies]
sha2 = "=0.9.9"
hmac = "=0.11.0"
base64 = "=0.13.1"
uuid = { version = "=1.29.1", features = ["v4", "serde"] }
chrono = "=0.4.45"
serde = { version = "=1.0.229", features = ["derive"] }
serde_json = "=1.0.154"
config = "=0.11.0"
ureq = { version = "=2.9.1", features = ["json"] }
actix-web = "=4.18.1"
tokio = { version = "=1.54.1", features = ["rt-multi-thread", "time", "macros"] }
env_logger = "=0.9.3"
lazy_static = "=1.5.1"
once_cell = "=1.21.4"
sled = "0.34"
bincode = "1"
