[package]
name = "boilchangeip"
version = "2.1.0"
edition = "2021"
publish = false

[dependencies]
anyhow = "=1.0.104"
chrono-tz = "=0.10.4"
clap = { version = "=4.6.7", features = ["derive", "env"] }
dialoguer = "=0.11.0"
dotenvy = "=0.15.7"
env_logger = "=0.11.11"
log = "=0.4.35"
rand = "=0.8.8"
reqwest = { version = "=0.12.28", default-features = false, features = ["json", "rustls-tls"] }
serde = { version = "=1.0.229", features = ["derive"] }
serde_json = "=1.0.154"
# Not used directly: teloxide depends on it, and 0.1.2 asks for a newer compiler.
takecell = "=0.1.1"
teloxide = { version = "=0.13.0", default-features = false, features = ["macros", "rustls", "ctrlc_handler"] }
tokio = { version = "=1.54.1", features = ["full"] }
tokio-cron-scheduler = "=0.13.0"
uuid = { version = "=1.29.0", features = ["v4"] }
