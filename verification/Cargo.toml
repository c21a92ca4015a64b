[package]
name = "llm_app"
version = "0.1.0"
edition = "2021"
publish = false

[dependencies]
redb = "3"
serde = { version = "1", features = ["derive"] }
serde_json = "1"
