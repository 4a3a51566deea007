[package]
name = "faebot"
version = "0.1.0"
edition = "2021"
publish = false

[dependencies]
rand = "0.8"
sqlx = { version = "0.8", default-features = false, features = ["sqlite", "runtime-tokio"] }
tokio = { version = "1", features = ["rt-multi-thread", "macros"] }
