[package]
name = "config_warnings"
version = "0.1.0"
edition = "2021"
publish = false

[dependencies]
serde = { version = "*", features = ["derive"] }
figment = "*"

[dev-dependencies]
serde_json = "*"
