[package]
name = "standby_queue"
version = "0.1.0"
edition = "2021"
publish = false

[dependencies]
rand = "0.8"
redis = "0.25"
serenity = "0.12"
tokio = { version = "1", features = ["macros", "rt-multi-thread", "sync"] }
warp = "0.3"
