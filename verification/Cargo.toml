[package]
name = "ai-vk"
version = "0.1.0"
edition = "2021"
publish = false

[dependencies]
ash = "0.38"
clap = { version = "4", features = ["derive"] }
hassle-rs = "0.11"
image = { version = "0.25", default-features = false, features = ["png"] }
serde = { version = "1", features = ["derive"] }
toml = "0.8"
