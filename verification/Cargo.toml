[package]
name = "lrclib"
version = "0.1.0"
edition = "2021"
publish = false

[dependencies]
anyhow = "1"
regex = "1"
reqwest = { version = "0.12", features = ["json"] }
serde = { version = "1", features = ["derive"] }
serde_json = "1"
thiserror = "1"
tokio = { version = "1", features = ["time"] }
