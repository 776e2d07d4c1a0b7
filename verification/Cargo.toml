[package]
name = "codeblock_lint"
version = "0.1.0"
edition = "2021"
publish = false

[dependencies]
serde = { version = "1", features = ["derive"] }
serde_json = "1"
serenity = { version = "0.10", default-features = false, features = ["builder", "client", "gateway", "http", "model", "utils", "rustls_backend"] }
tokio = { version = "1", features = ["macros", "rt-multi-thread"] }
