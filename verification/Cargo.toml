[package]
name = "uvenv"
version = "0.1.0"
edition = "2021"
publish = false

[dependencies]
regex = "1"
toml_edit = { version = "0.22", features = ["serde"] }
toml = "0.8"
serde = { version = "1", features = ["derive"] }
serde_json = "1"
rmp-serde = "1"
tokio = { version = "1", features = ["fs", "io-util", "rt", "macros"] }
owo-colors = "4"
anyhow = "1"
