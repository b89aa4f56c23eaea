[package]
name = "little_agent"
version = "0.1.0"
edition = "2021"
publish = false

[dependencies]
serde = { version = "1", features = ["derive"] }
serde_json = "1"
tokio = { version = "1", features = ["rt", "rt-multi-thread", "macros", "sync", "time", "process", "io-std", "io-util"] }
reqwest = { version = "0.12", default-features = false, features = ["json"] }
bytes = "1"
