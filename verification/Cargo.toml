[package]
name = "heimdall"
version = "0.1.0"
edition = "2021"
publish = false

[dependencies]
uuid = { version = "=1.29.0", features = ["v4", "v5", "serde"] }
chrono = { version = "=0.4.45", default-features = false, features = ["clock", "std"] }
sqlx = { version = "=0.8.6", default-features = false, features = ["postgres", "runtime-tokio", "uuid", "chrono"] }
async-trait = "=0.1.92"
serde = { version = "=1.0.229", features = ["derive"] }
tracing = "=0.1.44"
