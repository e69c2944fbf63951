[package]
name = "chess_server"
version = "0.1.0"
edition = "2021"
publish = false

[dependencies]
chess = "3.2"
sha2 = "0.10"
base64 = "0.22"
serde = { version = "1", features = ["derive"] }
serde_json = "1"
tokio = { version = "1", features = ["full"] }
rocket = { version = "0.5", features = ["secrets", "json"] }
rocket_dyn_templates = { version = "0.2", features = ["tera"] }
rocket_ws = "0.1"
