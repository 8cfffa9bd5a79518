[package]
name = "cpu_dashboard"
version = "0.1.0"
edition = "2021"
publish = false

[dependencies]
axum = { version = "*", features = ["ws"] }
clap = { version = "*", features = ["derive"] }
sysinfo = "*"
tokio = { version = "*", features = ["full"] }
tracing-subscriber = "*"

[dev-dependencies]
serde_json = "*"
