[package]
name = "sher_input"
version = "0.3.0"
edition = "2021"
publish = false

[dependencies]
uuid = { version = "1", features = ["v4"] }
evdev = "0.12"
tokio = { version = "1", features = ["rt-multi-thread", "macros", "sync", "time"] }
thiserror = "1"
serde = { version = "1", features = ["derive"] }
tracing = "0.1"
tracing-subscriber = { version = "0.3", features = ["env-filter"] }
