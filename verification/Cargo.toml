[package]
name = "staffmon"
version = "0.1.0"
edition = "2021"
publish = false

[dependencies]
anyhow = "1"
chrono = "0.4"
daemonize = "0.5"
dotenv = "0.15"
log = "0.4"
log4rs = "1"
reqwest = { version = "0.11", default-features = false, features = ["blocking", "json"] }
serde = { version = "1", features = ["derive"] }
serde_json = "1"
sysinfo = "0.29"
