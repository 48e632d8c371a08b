[package]
name = "notifier"
version = "0.1.0"
edition = "2021"
publish = false

[dependencies]
hex = "0.4"
ring = "0.17"
serde = { version = "1", features = ["derive"] }
lettre = { version = "0.11", default-features = false, features = ["smtp-transport", "builder"] }
