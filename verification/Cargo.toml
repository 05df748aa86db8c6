[package]
name = "twin_sync"
version = "0.1.0"
edition = "2021"
publish = false

[dependencies]
actix-cors = "*"
actix-web = "4"
anyhow = "1"
base64 = "0.13"
basyx-rs = "*"
chrono = "0.4"
clokwerk = "*"
env_logger = "*"
futures = "0.3"
reqwest = { version = "*", features = ["json"] }
rocksdb = "*"
serde = { version = "1", features = ["derive"] }
serde_json = "1"
serde_yaml = "*"
tokio = { version = "1", features = ["full"] }
