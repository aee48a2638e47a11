[package]
name = "plant_logs"
version = "0.1.0"
edition = "2021"
publish = false

[dependencies]
actix-rt = "1"
actix-web = "3"
bson = "1"
chrono = "0.4"
futures = "0.3"
mongodb = "1"
rustc-serialize = "0.3"
serde = { version = "1", features = ["derive"] }
