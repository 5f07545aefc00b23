[package]
name = "vnpyrs"
version = "0.1.0"
edition = "2021"
publish = false

[dependencies]
rust_decimal = "1"
chrono = "0.4"
chrono-tz = "0.10"
pyo3 = { version = "0.23", features = ["chrono", "chrono-tz", "abi3-py37"] }
serde = { version = "1", features = ["derive"] }
serde_json = "1"
strum = { version = "0.26", features = ["derive"] }
tokio = { version = "1", features = ["rt"] }
sqlx = { version = "0.8", default-features = false, features = ["runtime-tokio", "sqlite", "mysql", "chrono"] }
mongodb = "3"
bson = { version = "2", features = ["chrono-0_4"] }
