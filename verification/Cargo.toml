[package]
name = "edvige"
version = "0.1.0"
edition = "2021"
publish = false

[dependencies]
uuid = { version = "=1.29.0", features = ["v7"] }
chrono = "=0.4.45"
base64 = "=0.22.1"
mail-parser = "=0.11.9"
serde = { version = "=1.0.229", features = ["derive"] }
serde_json = "=1.0.154"
tokio = { version = "=1.54.1", features = ["full"] }
thiserror = "=2.0.21"

[dev-dependencies]
nom = "8"
