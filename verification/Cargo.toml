[package]
name = "appflow"
version = "0.1.0"
edition = "2021"
publish = false

[dependencies]
tokio = { version = "1", features = ["process", "rt-multi-thread", "io-util", "net", "time", "sync", "macros", "signal"] }
dirs = "*"
log = "0.4"
ctrlc = "3"
serde = { version = "1", features = ["derive"] }
serde_json = "1"
bincode = "1"
reqwest = { version = "*", default-features = false }
chrono = "0.4"
thiserror = "*"
