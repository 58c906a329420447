[package]
name = "risk_map"
version = "0.1.0"
edition = "2021"
publish = false

[dependencies]
macroquad = { version = "*", default-features = false }
serde = { version = "*", features = ["derive"] }
serde_json = "*"
