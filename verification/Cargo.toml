[package]
name = "serde_try_from"
version = "0.1.0"
edition = "2021"
publish = false

[dependencies]
proc-macro2 = "*"
quote = "*"
syn = "*"
serde = { version = "*", features = ["derive"] }
serde_json = "*"
