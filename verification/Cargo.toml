[package]
name = "voicetext"
version = "0.1.0"
edition = "2021"
publish = false

[dependencies]
chrono = "0.4"
hound = "3"
serde = { version = "1", features = ["derive"] }
serde_json = "1"
thiserror = "2"
async-trait = "0.1"
tracing = "0.1"
reqwest = { version = "0.12", default-features = false, features = ["json", "multipart"] }
rubato = "*"
