[package]
name = "transmission_proxy"
version = "0.1.0"
edition = "2021"
publish = false

[dependencies]
regex = "1"
base64 = "0.13"
bcrypt = "*"
urlencoding = "2"
serde_json = "1"
serde = { version = "1", features = ["derive"] }
serde_yaml = "0.9"
clap = { version = "4", features = ["derive", "env"] }
hyper = { version = "0.14", features = ["full"] }
tokio = { version = "1", features = ["full"] }
