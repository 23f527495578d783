[package]
name = "mocks"
version = "0.1.0"
edition = "2021"
publish = false

[dependencies]
serde_json = "1"
axum = "0.8"
clap = { version = "4", features = ["derive"] }
colored = "3"
tokio = { version = "1", features = ["full"] }
