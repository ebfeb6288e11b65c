[package]
name = "kilo"
version = "0.1.0"
edition = "2021"
publish = false

[dependencies]
regex = "1"
termion = "1.5"
toml = "0.8"
serde = { version = "1", features = ["derive"] }
