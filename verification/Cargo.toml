[package]
name = "uggo_core"
version = "0.1.0"
edition = "2021"
publish = false

[dependencies]
base64 = "*"
sysinfo = "*"
reqwest = { version = "*", default-features = false, features = ["rustls-tls", "json"] }
serde = { version = "*", features = ["derive"] }
tokio = { version = "*", features = ["rt", "rt-multi-thread", "macros"] }
