[package]
name = "meri_bot"
version = "0.1.0"
edition = "2021"
publish = false

[dependencies]
regex = "1"
sha2 = "0.10"
base64 = "0.21"
mime_guess = "2"
image = { version = "0.24", default-features = false, features = ["gif", "png"] }
serenity = { version = "0.11", default-features = false, features = ["builder", "cache", "client", "framework", "gateway", "http", "model", "standard_framework", "utils", "rustls_backend"] }
tokio = { version = "1", features = ["full"] }
reqwest = { version = "0.11", features = ["json", "stream"] }
serde = { version = "1", features = ["derive"] }
serde_json = "1"
chrono = "0.4"
uuid = { version = "1", features = ["v4"] }
futures-util = "0.3"
log = "0.4"
once_cell = "1"
anyhow = "1"
