[package]
name = "maidono"
version = "0.1.0"
edition = "2021"
publish = false

[dependencies]
hex = "0.4"
hmac = "0.12"
sha2 = "0.10"
rocket = { version = "0.5", features = ["json"] }
tokio = { version = "1", features = ["process", "io-util"] }
serde = { version = "1", features = ["derive"] }
serde_yaml = "0.9"
clap = { version = "4", features = ["derive"] }
clio = { version = "0.3", features = ["clap-parse"] }
owo-colors = { version = "3", features = ["supports-colors"] }
