[package]
name = "claude_view_server"
version = "0.1.0"
edition = "2021"
publish = false

[dependencies]
chrono = { version = "0.4", default-features = false, features = ["alloc", "std"] }
serde = { version = "1", features = ["derive"] }
serde_json = "1"
dirs = "5"
