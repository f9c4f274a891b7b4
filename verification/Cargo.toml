[package]
name = "redislock"
version = "0.1.0"
edition = "2021"
publish = false

[dependencies]
rand = "0.8"
redis = "0.23"
tokio = { version = "1", features = ["rt"] }
