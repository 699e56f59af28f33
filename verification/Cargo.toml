[package]
name = "mcmodfilelocaliztion"
version = "0.1.0"
edition = "2021"
publish = false

[dependencies]
anyhow = "*"
clap = { version = "*", features = ["derive"] }
dashmap = "*"
flate2 = "*"
reqwest = { version = "*", default-features = false, features = ["json", "rustls-tls"] }
serde = { version = "*", features = ["derive"] }
serde_json = "*"
sqlx = { version = "*", default-features = false, features = ["runtime-tokio", "sqlite", "derive"] }
tokio = { version = "*", features = ["rt-multi-thread", "macros"] }
toml = "*"
zip = { version = "*", default-features = false, features = ["deflate"] }
