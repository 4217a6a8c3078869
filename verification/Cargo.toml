[package]
name = "lookalike"
version = "0.1.0"
edition = "2021"
publish = false

[dependencies]
url = "2"
linkify = "*"
serenity = { version = "*", default-features = false, features = ["client", "gateway", "model", "rustls_backend"] }
tokio = { version = "1", features = ["macros", "rt-multi-thread"] }
