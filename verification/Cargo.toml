[package]
name = "soulcrush"
version = "0.1.0"
edition = "2021"
publish = false

[dependencies]
leptos = "*"
leptos_meta = "*"
leptos_router = "*"
serde = { version = "1", features = ["derive"] }
sqlx = { version = "*", default-features = false, features = ["sqlite", "runtime-tokio"] }
time = "*"
tracing = "*"
uuid = { version = "1", features = ["v4", "serde"] }
