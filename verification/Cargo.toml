[package]
name = "eventcore"
version = "0.1.0"
edition = "2021"
publish = false

[dependencies]
uuid = { version = "=1.29.0", features = ["v7"] }
prometheus = { version = "=0.13.4", default-features = false }
serde = { version = "=1.0.229", features = ["derive"] }
serde_json = "=1.0.154"
tokio = { version = "=1.54.1", features = ["rt", "rt-multi-thread", "macros", "time", "sync"] }
thiserror = "=1.0.69"
chrono = { version = "0.4", default-features = false, features = ["clock", "std"] }
