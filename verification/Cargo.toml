[package]
name = "kueue"
version = "0.1.0"
edition = "2021"
publish = false

[dependencies]
base64 = "*"
sha2 = "*"
serde = { version = "*", features = ["derive"] }
serde_json = "*"
tokio = { version = "*", features = ["full"] }
tokio-util = "*"
chrono = "*"
sysinfo = "*"
rand = "*"
directories = "*"
toml = "*"
log = "*"
simple_logger = "*"
anyhow = "*"
