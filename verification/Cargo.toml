[package]
name = "agcp"
version = "0.1.0"
edition = "2021"
publish = false

[dependencies]
base64 = "0.22"
chrono = "0.4"
crossterm = "*"
dialoguer = "*"
dirs = "*"
getrandom = "0.3"
http-body-util = "0.1"
hyper = { version = "1", features = ["server", "http1"] }
hyper-util = { version = "0.1", features = ["tokio"] }
libc = "0.2"
parking_lot = "0.12"
ratatui = "*"
regex-lite = "0.1"
serde = { version = "1", features = ["derive"] }
serde_json = "1"
tachyonfx = "*"
tokio = { version = "1", features = ["full"] }
tracing = "0.1"
