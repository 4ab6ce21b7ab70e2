[package]
name = "robot_commander"
version = "0.1.0"
edition = "2021"
publish = false

[dependencies]
reqwest = { version = "=0.13.5", default-features = false, features = ["blocking"] }
rmcp = { version = "=3.7.0", features = ["server", "macros", "transport-io"] }
serde = { version = "=1.0.229", features = ["derive"] }
serde_json = "=1.0.154"
tokio = { version = "=1.54.1", features = ["macros", "rt-multi-thread", "signal", "io-std"] }
tracing = "=0.1.44"
tracing-subscriber = "=0.3.23"
