[package]
name = "lunaluz_schedules"
version = "0.1.0"
edition = "2021"
publish = false

[dependencies]
serde = { version = "1", features = ["derive"] }
serde_json = "=1.0.151"
chrono = { version = "=0.4.45", features = ["serde"] }
iso8601-duration = "=0.2.0"
axum = "=0.8.9"
tokio = { version = "1", features = ["macros", "rt-multi-thread", "net"] }
clap = { version = "4", features = ["derive"] }
