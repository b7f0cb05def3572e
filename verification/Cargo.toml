[package]
name = "pgspawn"
version = "0.1.0"
edition = "2021"
publish = false

[dependencies]
jiff = "0.2"
jiff-sqlx = { version = "*", features = ["postgres"] }
serde = { version = "1", features = ["derive"] }
serde_json = "1"
sqlx = { version = "*", default-features = false, features = ["postgres", "runtime-tokio", "uuid", "json", "migrate", "derive", "macros"] }
thiserror = "2"
tokio = { version = "1", features = ["rt", "rt-multi-thread", "sync", "time", "macros"] }
tracing = "0.1"
uuid = { version = "1", features = ["v4"] }
