[package]
name = "todo_api"
version = "0.1.0"
edition = "2021"
publish = false

[dependencies]
actix-cors = "*"
actix-web = "4"
chrono = { version = "0.4", features = ["serde"] }
env_logger = "*"
serde = { version = "1", features = ["derive"] }
uuid = { version = "1", features = ["v4"] }
