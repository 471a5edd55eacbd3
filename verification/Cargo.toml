[package]
name = "pbinfo_api"
version = "0.1.0"
edition = "2021"
publish = false

[dependencies]
rand = "=0.10.3"
reqwest = { version = "=0.13.5", default-features = false, features = ["form"] }
serde = { version = "=1.0.229", features = ["derive"] }
serde_json = "=1.0.151"
tokio = { version = "=1.53.2", features = ["time"] }
directories = "=6.0.0"
