[package]
name = "sysmlv2_model"
version = "0.1.0"
edition = "2021"
publish = false

[dependencies]
uuid = { version = "1", features = ["v4", "v5"] }
serde_json = "1"
serde = { version = "1", features = ["derive"] }
