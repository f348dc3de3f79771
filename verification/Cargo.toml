[package]
name = "attune_routes"
version = "0.1.0"
edition = "2021"
publish = false

[dependencies]
serde = { version = "=1.0.229", features = ["derive"] }
serde_json = "=1.0.154"
chrono = { version = "=0.4.45", features = ["serde"] }
url = "=2.5.8"
serde_yaml_ng = "*"
