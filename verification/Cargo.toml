[package]
name = "ludownloader"
version = "0.1.0"
edition = "2021"
publish = false

[dependencies]
reqwest = { version = "*", default-features = false, features = ["stream"] }
uuid = { version = "*", features = ["v4"] }
tokio = { version = "*", features = ["rt-multi-thread", "macros", "fs", "io-util", "sync", "time", "net"] }
axum = "*"
serde = { version = "*", features = ["derive"] }
serde_json = "*"
serde_yaml = "*"
dirs = "*"
log = "*"
env_logger = "*"
futures-util = "*"
async-trait = "*"
