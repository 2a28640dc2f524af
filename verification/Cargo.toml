[package]
name = "iemanja"
version = "0.1.0"
edition = "2021"
publish = false

[dependencies]
chrono = "*"
serde = { version = "*", features = ["derive"] }
serde_json = "*"
thiserror = "*"
clap = { version = "*", features = ["derive"] }
anyhow = "*"
tracing = "*"
tracing-subscriber = { version = "*", features = ["env-filter"] }
actix-web = { version = "*", default-features = false, features = ["macros"] }
surrealdb = { version = "*", default-features = false }
