[package]
name = "vaulter"
version = "0.1.0"
edition = "2021"
publish = false

[dependencies]
argon2 = "0.5"
base64 = "0.22"
chacha20poly1305 = "0.10"
rand = "0.8"
rusqlite = "0.32"
clap = { version = "4", features = ["derive"] }
