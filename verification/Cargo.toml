[package]
name = "booru"
version = "0.1.0"
edition = "2021"
publish = false

[dependencies]
serde_json = "1"
serde = { version = "1", features = ["derive"] }
reqwest = { version = "0.12", default-features = false, features = ["blocking"] }
futures = "0.3"
rhai = { version = "1", features = ["serde"] }
