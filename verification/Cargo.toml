[package]
name = "qa_board"
version = "0.1.0"
edition = "2021"
publish = false

[dependencies]
uuid = "=1.27.0"
serde = { version = "=1.0.229", features = ["derive"] }
tokio = { version = "=1.53.2", features = ["macros", "rt-multi-thread", "net"] }
axum = "=0.8.9"
sqlx = { version = "=0.9.0", default-features = false, features = ["runtime-tokio", "postgres"] }
async-trait = "=0.1.92"
dotenvy = "=0.15.7"
log = "=0.4.34"
pretty_env_logger = "=0.5.0"
