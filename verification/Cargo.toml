[package]
name = "message_board"
version = "0.1.0"
edition = "2021"
publish = false

[dependencies]
serde_json = "*"
axum = "*"
tokio = { version = "*", features = ["full"] }
tower = "*"
tower-http = { version = "*", features = ["cors", "fs"] }
