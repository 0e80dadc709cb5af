[package]
name = "vault_of_games"
version = "0.1.0"
edition = "2021"
publish = false

[dependencies]
anyhow = "*"
axum = "=0.8.9"
chrono = "=0.4.45"
dotenv = "*"
futures = "*"
hyper = "*"
jwt-simple = "=0.11.9"
once_cell = "*"
rand = "=0.10.3"
rust-argon2 = "=3.0.0"
serde = { version = "*", features = ["derive"] }
serde_json = "*"
thiserror = "*"
tokio = { version = "*", features = ["macros", "rt-multi-thread"] }
tower = "=0.5.3"
tower-http = { version = "=0.7.1", features = ["auth", "timeout", "trace"] }
tracing = "*"
tracing-subscriber = "*"
uuid = { version = "=1.27.0", features = ["v4"] }
