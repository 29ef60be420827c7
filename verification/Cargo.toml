[package]
name = "unsealer"
version = "0.1.0"
edition = "2021"
publish = false

[dependencies]
anyhow = "*"
axum = "*"
base64 = "*"
clap = { version = "*", features = ["derive", "env"] }
serde = { version = "*", features = ["derive"] }
sodiumoxide = "*"
tokio = { version = "*", features = ["full"] }
tokio-util = "*"
tower_governor = "*"
tower-http = { version = "*", features = ["limit", "timeout"] }
