[package]
name = "user_accounts"
version = "0.1.0"
edition = "2021"
publish = false

[dependencies]
axum = { version = "0.6", features = ["form"] }
axum-login = "0.7"
pbkdf2 = { version = "0.12", features = ["simple"] }
rand_chacha = "0.3"
rand_core = { version = "0.6", features = ["getrandom"] }
serde = { version = "1", features = ["derive"] }
shuttle-axum = "0.34"
shuttle-runtime = "0.34"
shuttle-shared-db = { version = "0.34", features = ["postgres"] }
sqlx = { version = "0.7", features = ["postgres", "runtime-tokio-native-tls"] }
tera = "1"
tracing = "0.1"
