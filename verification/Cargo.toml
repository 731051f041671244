[package]
name = "onion_bootstrap"
version = "0.1.0"
edition = "2021"
publish = false

[dependencies]
torut = { version = "=0.2.1", default-features = false, features = ["v3", "control", "serialize"] }
tokio = { version = "=1.54.1", features = ["net"] }
libtor = "=46.9.0"
serde = { version = "=1.0.229", features = ["derive"] }
serde_json = "=1.0.154"
rocket = "=0.5.2"
