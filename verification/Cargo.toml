[package]
name = "kronos"
version = "0.2.0"
edition = "2021"
publish = false

[dependencies]
anyhow = "1"
chrono = "0.4"
dotenv = "0.15"
futures = "0.3"
lazy_static = "1"
log = "0.4"
mongodb = "2"
pretty_env_logger = "0.4"
serde = { version = "1", features = ["derive"] }
serde_json = "1"
thiserror = "1"
tokio = { version = "1", features = ["rt-multi-thread", "signal", "sync", "macros", "time"] }
twilight-gateway = "0.12"
twilight-http = "0.12"
twilight-model = "0.12"
twilight-util = { version = "0.12", features = ["builder", "snowflake"] }
