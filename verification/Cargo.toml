[package]
name = "katze"
version = "0.1.0"
edition = "2021"
publish = false

[dependencies]
anyhow = "1"
darkredis = "0.8"
dotenv = "0.15"
futures-util = "0.3"
log = "0.4"
pretty_env_logger = "0.4"
rand = "0.8"
serde = { version = "1", features = ["derive"] }
serde_json = "1"
tokio = { version = "1", features = ["macros", "rt-multi-thread", "time"] }
tokio-postgres = "0.7"
twilight-embed-builder = "0.8"
twilight-gateway = "0.8"
twilight-http = "0.8"
twilight-model = "0.8"
twilight-standby = "0.8"
