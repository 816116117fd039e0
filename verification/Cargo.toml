[package]
name = "messages_server"
version = "0.1.0"
edition = "2021"
publish = false

[dependencies]
image = "0.24"
axum = "0.7"
hyper = "1"
tokio = { version = "1", features = ["full"] }
serde = { version = "1", features = ["derive"] }
serde_json = "1"
socketioxide = "0.14"
rusqlite = { version = "0.31", features = ["bundled"] }
