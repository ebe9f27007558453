[package]
name = "webshell"
version = "0.1.0"
edition = "2021"
publish = false

[dependencies]
chrono = "0.4"
regex = "1"
serde = { version = "1", features = ["derive"] }
serde_json = "1"
warp = "0.3"
tokio = { version = "1", features = ["macros", "rt-multi-thread", "sync"] }
futures = "0.3"
futures-util = "0.3"
tower-service = "0.3"
portable-pty = "*"
vt100 = "*"
lazy_static = "1"
