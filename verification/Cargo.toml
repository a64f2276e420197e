[package]
name = "ersha"
version = "0.1.0"
edition = "2021"
publish = false

[dependencies]
ulid = "1"
jiff = "0.2"
serde = { version = "1", features = ["derive"] }
serde_json = "1"
postcard = { version = "1", features = ["alloc"] }
tokio = { version = "1", features = ["full"] }
sqlx = { version = "0.8", default-features = false, features = ["sqlite", "runtime-tokio", "macros"] }
axum = "0.8"
clap = { version = "4", features = ["derive"] }
thiserror = "2"
