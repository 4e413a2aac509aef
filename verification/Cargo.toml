[package]
name = "proton_drive"
version = "2.1.1"
edition = "2021"
publish = false

[dependencies]
axum = "0.8"
base64 = "0.22"
dirs = "6"
reqwest = { version = "0.12", features = ["cookies", "json"] }
serde = { version = "1", features = ["derive"] }
serde_json = "1"
tokio = { version = "1", features = ["net", "rt", "time"] }
url = "2"
