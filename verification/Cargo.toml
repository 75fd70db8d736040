[package]
name = "swan"
version = "0.1.0"
edition = "2021"
publish = false

[dependencies]
fastrand = "*"
reqwest = { version = "*", default-features = false }
tokio = { version = "*", features = ["rt", "time", "macros"] }
serde = { version = "*", features = ["derive"] }
serde_json = "*"
serde_urlencoded = "*"
