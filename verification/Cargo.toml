[package]
name = "spa_server"
version = "0.1.0"
edition = "2021"
publish = false

[dependencies]
axum = "*"
axum-server = { version = "*", features = ["tls-rustls"] }
clap = { version = "*", features = ["derive"] }
hyper = { version = "*", features = ["full"] }
hyper-tls = "*"
hyper-util = { version = "*", features = ["client-legacy", "http1", "tokio"] }
serde = { version = "*", features = ["derive"] }
serde_json = "*"
tokio = { version = "*", features = ["full"] }
tower-http = { version = "*", features = ["fs"] }
