[package]
name = "workspace_cli"
version = "0.1.0"
edition = "2021"
publish = false

[dependencies]
base64 = "*"
chrono = "*"
uuid = { version = "*", features = ["v4"] }
dirs = "*"
serde = { version = "*", features = ["derive"] }
serde_json = "*"
reqwest = { version = "*", default-features = false, features = ["rustls-tls"] }
tokio = { version = "*", features = ["rt-multi-thread", "macros", "fs"] }

[dev-dependencies]
urlencoding = "*"
