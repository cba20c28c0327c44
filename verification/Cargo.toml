[package]
name = "tango_bridge"
version = "0.1.0"
edition = "2021"
publish = false

[dependencies]
base64 = "0.22"
ed25519-dalek = "2"
rand = "0.9"
tokio = { version = "1", features = ["net", "process", "time", "fs", "io-util", "macros", "rt-multi-thread"] }
axum = { version = "0.8", features = ["ws", "macros"] }
futures-util = { version = "0.3", features = ["sink"] }
http = "1"
reqwest = { version = "0.12", default-features = false, features = ["stream", "rustls-tls"] }
tower-http = { version = "0.6", features = ["cors"] }
open = "5"
single-instance = "0.3"
auto-launch = "0.5"
tao = "0.30"
tray-icon = "0.19"
image = { version = "0.25", default-features = false, features = ["png"] }
