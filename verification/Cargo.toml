[package]
name = "kether_internal_services_server"
version = "0.1.0"
edition = "2021"
publish = false

[dependencies]
jsonwebtoken = { version = "=9.3.1", default-features = false }
rand = "=0.8.8"
chrono = { version = "=0.4.45", default-features = false, features = ["now", "serde", "std"] }
urlencoding = "=2.1.3"
toml = "=0.8.23"
serde = { version = "=1.0.229", features = ["derive"] }
serde_json = { version = "=1.0.154", features = ["preserve_order"] }
rocket = { version = "=0.5.2", features = ["json"] }
tokio = { version = "=1.54.1", features = ["full"] }
clap = { version = "=4.6.7", features = ["derive"] }
