[package]
name = "snake_game"
version = "0.1.0"
edition = "2021"
publish = false

[dependencies]
linera-base = { version = "0.15", default-features = false }
async-graphql = { version = "7", default-features = false }
serde = { version = "1", features = ["derive"] }
