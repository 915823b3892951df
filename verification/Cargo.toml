[package]
name = "particles"
version = "0.1.0"
edition = "2021"
publish = false

[dependencies]
chrono = { version = "=0.4.45", features = ["serde"] }
actix-web = "=4.15.0"
actix-cors = "=0.7.2"
serde = { version = "=1.0.229", features = ["derive"] }
env_logger = "=0.11.11"
dotenv = "=0.15.0"
