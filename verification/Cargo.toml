[package]
name = "sqlrt"
version = "0.1.0"
edition = "2021"
publish = false

[dependencies]
chrono = "0.4"
md5 = "0.7"
csv = "1"
serde = { version = "1", features = ["derive"] }
ordered-float = "4"
