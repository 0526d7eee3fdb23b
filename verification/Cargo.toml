[package]
name = "descriptor"
version = "0.1.0"
edition = "2021"
publish = false

[dependencies]
strum = { version = "0.24", default-features = false, features = ["derive"] }
