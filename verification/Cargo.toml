[package]
name = "harmony"
version = "0.1.0"
edition = "2021"
publish = false

[dependencies]
bcrypt = "*"
nanoid = "*"
dotenvy = "*"
tokio = { version = "*", features = ["rt-multi-thread", "sync", "time", "macros"] }
