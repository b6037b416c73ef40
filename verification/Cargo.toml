[package]
name = "crawler"
version = "0.1.0"
edition = "2021"
publish = false

[dependencies]
anyhow = "*"
async-trait = "*"
chadselect = "*"
clap = { version = "*", features = ["derive"] }
csv = "*"
env_logger = "*"
futures = "*"
indicatif = "*"
indicatif-log-bridge = "*"
log = "*"
reqwest = { version = "*", default-features = false, features = ["rustls-tls"] }
serde = { version = "*", features = ["derive"] }
serde_json = "*"
serde_yaml = "*"
sqlx = { version = "*", default-features = false, features = ["sqlite", "runtime-tokio"] }
tokio = { version = "*", features = ["rt-multi-thread", "macros", "sync", "time", "signal"] }
tokio-stream = "*"
toml = "*"
