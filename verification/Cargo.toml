[package]
name = "traced_users"
version = "0.1.0"
edition = "2021"
publish = false

[dependencies]
axum = "*"
serde = { version = "*", features = ["derive"] }
tokio = { version = "*", features = ["macros", "rt-multi-thread", "net"] }
tracing = "*"
tracing-subscriber = { version = "*", features = ["json"] }
