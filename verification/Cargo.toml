[package]
name = "ollama_rust"
version = "0.1.0"
edition = "2021"
publish = false

[dependencies]
async-stream = "0.3"
reqwest = { version = "0.12", default-features = false, features = ["json", "stream"] }
serde = { version = "1", features = ["derive"] }
serde_json = "1"
thiserror = "2"
tokio-stream = "0.1"
url = "2"
