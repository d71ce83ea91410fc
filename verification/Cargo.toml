[package]
name = "blog_core"
version = "0.1.0"
edition = "2021"
publish = false

[dependencies]
markdown = "*"
chrono = "0.4"
regex = "1"
serde = { version = "1", features = ["derive"] }
serde_json = "1"
reqwest = { version = "0.12", default-features = false, features = ["blocking", "rustls-tls"] }
rocket = { version = "0.5", features = ["json"] }
log = "0.4"
env_logger = "*"
dotenv = "*"
postgres = { version = "0.19", features = ["with-chrono-0_4"] }
r2d2 = "0.8"
r2d2_postgres = "0.18"
