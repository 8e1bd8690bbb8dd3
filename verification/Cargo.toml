[package]
name = "pier_stress"
version = "0.1.0"
edition = "2021"
publish = false

[dependencies]
serde = { version = "1", features = ["derive"] }
tauri = { version = "2", default-features = false }
ts-rs = { version = "12", default-features = false }
