[package]
name = "tuipaz"
version = "0.1.0"
edition = "2021"
publish = false

[dependencies]
sqlx = { version = "=0.9.0", default-features = false, features = ["sqlite", "runtime-tokio"] }
tokio = { version = "=1.53.2", default-features = false, features = ["rt", "macros"] }
crossterm = "=0.29.0"
