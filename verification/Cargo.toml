[package]
name = "nas"
version = "0.1.0"
edition = "2021"
publish = false

[dependencies]
percent-encoding = "2"
anyhow = "1"
serde = { version = "1", features = ["derive"] }
actix-web = "3"
actix-identity = "0.3"
rusqlite = { version = "0.24", features = ["bundled"] }
