[package]
name = "user_service"
version = "0.1.0"
edition = "2021"
publish = false

[dependencies]
actix-web = "4"
dotenv = "0.15"
mongodb = "2"
serde = { version = "1", features = ["derive"] }
serde_json = "1"
