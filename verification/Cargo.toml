[package]
name = "kewr_panel"
version = "0.1.0"
edition = "2021"
publish = false

[dependencies]
actix-web = "4"
dotenv = "0.15"
env_logger = "0.10"
futures = "0.3"
log = "0.4"
serde = { version = "1", features = ["derive"] }
sysinfo = "0.29"
tera = "1"
tokio = { version = "1", features = ["sync", "rt", "macros"] }
tokio-stream = "0.1"
