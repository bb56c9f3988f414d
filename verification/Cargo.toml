[package]
name = "tokenroller"
version = "0.1.0"
edition = "2021"
publish = false

[dependencies]
axum = "*"
hex = "*"
rand = "*"
serde = { version = "*", features = ["derive"] }
tokio = { version = "*", features = ["full"] }
