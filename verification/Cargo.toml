[package]
name = "graphics"
version = "0.1.0"
edition = "2021"
publish = false

[dependencies]
xmlwriter = "0.1"
serde = { version = "1", features = ["derive"] }
serde_json = "1"
anyhow = "1"
thiserror = "1"
