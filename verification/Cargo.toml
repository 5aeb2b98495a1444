[package]
name = "security_center"
version = "0.1.0"
edition = "2021"
publish = false

[dependencies]
anyhow = "1"
chrono = "0.4"
dirs = "5"
gtk4 = "0.9"
libadwaita = { version = "0.7", features = ["v1_5"] }
reqwest = { version = "0.12", features = ["json"] }
serde = { version = "1", features = ["derive"] }
serde_json = "1"
tokio = { version = "1", features = ["rt", "sync"] }
tracing = "0.1"
tracing-subscriber = "0.3"
zbus = "4"
