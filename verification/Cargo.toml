[package]
name = "cattongue"
version = "0.1.0"
edition = "2021"
publish = false

[dependencies]
anyhow = "1"
axum = "0.8"
serde = { version = "1", features = ["derive"] }
sqlx = { version = "0.8", default-features = false, features = ["sqlite", "runtime-tokio"] }
tokio = { version = "1", features = ["rt-multi-thread", "macros", "net"] }
tower-sessions = "0.14"
tower-sessions-sqlx-store = { version = "0.15", default-features = false, features = ["sqlite"] }
