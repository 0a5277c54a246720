[package]
name = "iso_currency"
version = "0.1.0"
edition = "2021"
publish = false

[dependencies]
iso_country = "*"
serde = { version = "*", features = ["derive"] }
