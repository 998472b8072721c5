[package]
name = "blob_ledger"
version = "0.1.0"
edition = "2021"
publish = false

[dependencies]
rust_decimal = "*"
uuid = "*"
tracing = "*"
sqlx = { version = "*", default-features = false, features = ["postgres", "runtime-tokio", "uuid", "rust_decimal"] }
