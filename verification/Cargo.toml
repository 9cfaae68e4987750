[package]
name = "food_api"
version = "0.1.0"
edition = "2021"
publish = false

[dependencies]
axum = "0.5"
dotenv = "0.15"
sea-orm = { version = "*", default-features = false, features = ["sqlx-postgres", "runtime-tokio-rustls", "macros"] }
serde = { version = "1", features = ["derive"] }
tokio = { version = "1", features = ["macros", "rt-multi-thread"] }
tracing = "0.1"
tracing-subscriber = { version = "0.3", features = ["env-filter"] }

[dev-dependencies]
serde_json = "1"
