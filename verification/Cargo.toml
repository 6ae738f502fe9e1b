[package]
name = "password_store"
version = "0.1.0"
edition = "2021"
publish = false

[dependencies]
aes-gcm = "0.10"
hmac-sha256 = "1"
rusqlite = { version = "0.31", features = ["bundled"] }
clap = { version = "4", features = ["derive"] }
clap_complete = "4"
rpassword = "7"
dotenv = "0.15"
env_logger = "0.11"
log = "0.4"

[dev-dependencies]
tempfile = "3"
