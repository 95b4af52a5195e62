[package]
name = "captions_models"
version = "0.1.0"
edition = "2021"
publish = false

[dependencies]
sha1 = "0.10"
reqwest = { version = "0.12", default-features = false, features = ["blocking"] }
serde = { version = "1", features = ["derive"] }
serde_json = "1"
regex = "1"
srtlib = "*"
