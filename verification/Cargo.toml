[package]
name = "password_manager"
version = "0.1.0"
edition = "2021"
publish = false

[dependencies]
rand = "0.8"
rusqlite = { version = "0.31", features = ["bundled"] }
