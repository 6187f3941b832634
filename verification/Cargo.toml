[package]
name = "qomicex_connector"
version = "0.1.0"
edition = "2021"
publish = false

[dependencies]
cidr = { version = "0.3", features = ["serde"] }
clap = { version = "4", features = ["derive"] }
env_logger = "0.11"
log = "0.4"
network-interface = "2"
rand = "0.8"
reqwest = { version = "0.12", default-features = false, features = ["rustls-tls"] }
serde = { version = "1", features = ["derive"] }
serde_json = { version = "1", features = ["preserve_order"] }
sys-locale = "0.3"
tokio = { version = "1", features = ["rt-multi-thread", "macros", "net", "io-util", "time", "sync", "signal"] }
uuid = { version = "1", features = ["v4"] }

[dev-dependencies]
regex = "1"
