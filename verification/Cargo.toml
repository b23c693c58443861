[package]
name = "h2gb"
version = "0.1.0"
edition = "2021"
publish = false

[dependencies]
aes = "=0.6.0"
block-modes = "=0.7.0"
serde = { version = "1", features = ["derive"] }
simple-error = "0.3"
