[package]
name = "bookstore"
version = "0.1.0"
edition = "2021"
publish = false

[dependencies]
dotenvy = "0.15"
sqlx = { version = "0.8", default-features = false, features = ["postgres", "runtime-tokio"] }
tokio = { version = "1", features = ["rt-multi-thread", "macros"] }
