[package]
name = "cassino"
version = "0.1.0"
edition = "2021"
publish = false

[dependencies]
dotenv = "0.15"
lazy_static = "1"
mongodb = "3"
poise = "0.6"
rand = "0.9"
serde = { version = "1", features = ["derive"] }
serenity = "0.12"
tokio = { version = "1", features = ["full"] }
