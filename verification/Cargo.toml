[package]
name = "llama_launch"
version = "0.1.6"
edition = "2021"
publish = false

[dependencies]
anyhow = "1"
eframe = { version = "0.29", default-features = false, features = ["default_fonts", "glow", "x11"] }
rand = "0.8"
rfd = "0.15"
serde = { version = "1", features = ["derive"] }
serde_json = "1"
