[package]
name = "telegram_gui"
version = "0.1.0"
edition = "2021"
publish = false

[dependencies]
anyhow = "=1.0.104"
base64 = "=0.22.1"
chacha20poly1305 = "=0.10.1"
chrono = { version = "=0.4.45", features = ["serde"] }
directories = "=6.0.0"
grammers-client = "=0.11.0"
grammers-session = { version = "=0.11.0", default-features = false, features = ["serde"] }
keyring = "=4.2.0"
serde = { version = "=1.0.229", features = ["derive"] }
serde_json = "=1.0.154"
sha2 = "=0.10.9"
sqlx = { version = "=0.8.6", default-features = false, features = ["sqlite", "runtime-tokio", "chrono", "migrate"] }
thiserror = "=2.0.21"
tokio = { version = "=1.54.1", features = ["full"] }
toml = "=1.1.8"
tracing = "=0.1.44"
tracing-appender = "=0.2.5"
tracing-subscriber = { version = "=0.3.23", features = ["env-filter"] }
