[package]
name = "payments"
version = "0.1.0"
edition = "2021"
publish = false

[dependencies]
rust_decimal = "*"
csv = "*"
serde = { version = "*", features = ["derive"] }
clap = { version = "*", features = ["derive"] }
anyhow = "*"
thiserror = "*"
