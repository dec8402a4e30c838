[package]
name = "newsletter_api"
version = "0.1.0"
edition = "2021"
publish = false

[dependencies]
uuid = { version = "1", features = ["v4"] }
serde = { version = "1", features = ["derive"] }
tokio = { version = "1", features = ["macros", "rt-multi-thread"] }
actix-web = { version = "4", default-features = false }
sqlx = { version = "0.8", default-features = false, features = ["postgres", "runtime-tokio"] }
