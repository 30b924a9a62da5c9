[package]
name = "puzzle"
version = "0.0.1"
edition = "2021"
publish = false

[dependencies]
serde = { version = "=1.0.229", features = ["derive"] }
toml = "=1.1.8"
postcard = { version = "=1.1.3", features = ["alloc"] }
indoc = "=2.0.8"
regex = "1"
