[package]
name = "router"
version = "0.2.0"
edition = "2021"
publish = false

[dependencies]
clap = "2"
env_logger = "0.11"
futures = "0.3"
log = "0.4"
serde = { version = "1", features = ["derive"] }
serde_json = { version = "1", features = ["preserve_order"] }
tokio = { version = "1", features = ["full"] }
url = "2"
warp = "0.3"
