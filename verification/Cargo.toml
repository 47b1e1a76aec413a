[package]
name = "kb_center"
version = "0.1.0"
edition = "2021"
publish = false

[dependencies]
rust-argon2 = "1.0"
rand = "0.8"
paseto = "2.0"
chrono = "0.4"
serde_json = "1.0"
serde = { version = "1.0", features = ["derive"] }
sqlx = { version = "0.6", default-features = false, features = ["runtime-tokio-rustls", "postgres", "migrate"] }
tokio = { version = "1", features = ["full"] }
warp = "0.3"
clap = { version = "3.2", features = ["derive"] }
dotenv = "0.15"
colored = "2"
color-eyre = "0.6"
tracing = "0.1"
tracing-subscriber = { version = "0.3", features = ["env-filter"] }
uuid = { version = "1", features = ["v4"] }
