[package]
name = "autoclick"
version = "0.1.0"
edition = "2021"
publish = false

[dependencies]
xcb = { version = "0.9", features = ["xtest"] }
failure = "0.1"
