[package]
name = "parish_core"
version = "0.1.0"
edition = "2021"
publish = false

[dependencies]
base64 = "=0.23.1"
bcrypt = "=0.19.3"
pbkdf2 = "=0.13.0"
sha2 = "=0.11.0"
jsonwebtoken = { version = "=11.1.0", features = ["rust_crypto"] }
serde = { version = "=1.0.229", features = ["derive"] }
serde_json = "=1.0.151"
uuid = { version = "=1.27.0", features = ["v4", "serde"] }
rust_decimal = "=1.43.0"
chrono = { version = "=0.4.45", features = ["serde"] }
csv = "=1.4.0"
