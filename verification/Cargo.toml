[package]
name = "restock_notify"
version = "0.1.0"
edition = "2021"
publish = false

[dependencies]
regex = "=1.13.1"
reqwest = { version = "=0.13.5", default-features = false, features = ["gzip"] }
tokio = { version = "=1.53.2", features = ["macros", "rt-multi-thread", "time", "fs", "io-util"] }
chrono = { version = "=0.4.45", features = ["serde"] }
serde = { version = "=1.0.229", features = ["derive"] }
serde_json = "=1.0.151"
futures = "=0.3.34"
