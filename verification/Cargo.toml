[package]
name = "connect_core"
version = "0.1.0"
edition = "2021"
publish = false

[dependencies]
base64 = "0.22"
axum = "0.8"
http = "1"
http-body-util = "0.1"
tokio = { version = "1", features = ["rt-multi-thread", "net", "macros"] }
