[package]
name = "status_server"
version = "0.1.0"
edition = "2021"
publish = false

[dependencies]
argon2 = "=0.6.0"
rand = "=0.9.5"
chrono = { version = "=0.4.45", features = ["serde"] }
strfmt = "=0.2.6"
serde = { version = "=1.0.229", features = ["derive"] }
serde_json = "=1.0.154"
toml = "=1.1.8"
tokio = { version = "=1.54.1", features = ["full"] }
axum = { version = "=0.8.9", features = ["ws"] }
reqwest = { version = "=0.12.28", default-features = false, features = ["json", "rustls-tls"] }
lettre = { version = "=0.11.23", default-features = false, features = ["smtp-transport", "builder", "rustls-tls"] }
clap = { version = "=4.6.7", features = ["derive"] }
tracing = "=0.1.44"
tracing-subscriber = "=0.3.23"
url = { version = "=2.5.8", features = ["serde"] }
futures-util = "=0.3.34"
rusqlite = { version = "=0.41.1", features = ["bundled"] }
minecraft-net = "=0.3.3"
