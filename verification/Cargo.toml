[package]
name = "nic"
version = "0.1.0"
edition = "2021"
publish = false

[dependencies]
chrono = "0.4"
tokio = { version = "1", features = ["full"] }
axum = { version = "0.7", features = ["ws"] }
serde = { version = "1", features = ["derive"] }
serde_json = "1"
toml = "0.8"
rusqlite = { version = "*", features = ["bundled"] }
tracing = "0.1"
tracing-subscriber = { version = "0.3", features = ["env-filter"] }
getopts = "0.2"
reqwest = { version = "0.12", default-features = false, features = ["blocking"] }
rumqttc = { version = "*", default-features = false }
thiserror = "1"
num-traits = "0.2"
