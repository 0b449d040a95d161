[package]
name = "resourcer"
version = "0.1.0"
edition = "2021"
publish = false

[dependencies]
url = "*"
sourcemap = "*"
sha2 = "*"
chrono = "*"
serde_json = "*"
log = "*"
walkdir = "*"
async-trait = "*"
futures = "*"
env_logger = "*"
clap = { version = "*", features = ["derive"] }
tokio = { version = "*", features = ["rt-multi-thread", "macros", "sync", "time", "fs"] }
reqwest = { version = "*", default-features = false, features = ["rustls-tls"] }
