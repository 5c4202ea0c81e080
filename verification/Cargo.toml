[package]
name = "ws_tunnel"
version = "0.1.0"
edition = "2021"
publish = false

[dependencies]
base64 = "0.13"
embedded-websocket = "*"
env_logger = "0.9"
httparse = "1"
log = "0.4"
rand = "0.8"
rustls = "0.20"
serde = { version = "1", features = ["derive"] }
serde_derive = "1"
serde_json = "1"
url = "2"
webpki-roots = "0.22"
