[package]
name = "snake_core"
version = "0.1.0"
edition = "2021"
publish = false

[dependencies]
rand = "0.8"
actix-web = "4"
actix-settings = "*"
tokio = { version = "1", features = ["sync", "time", "rt", "macros"] }
