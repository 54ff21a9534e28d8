[package]
name = "mmo_server"
version = "0.1.0"
edition = "2021"
publish = false

[dependencies]
bytes = "1"
getrandom = "0.2"
dashmap = "5"
tokio = { version = "1", features = ["full"] }
tokio-rustls = "0.23"
rustls-pemfile = "1"
sqlx = { version = "0.6", default-features = false, features = ["runtime-tokio-rustls", "sqlite", "macros"] }
argh = "0.1"
nom = "7"
