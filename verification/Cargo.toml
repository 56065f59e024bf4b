[package]
name = "transactions"
version = "0.1.0"
edition = "2021"
publish = false

[dependencies]
csv = "1"
itertools = "0.10"
serde = { version = "1", features = ["derive"] }
