[package]
name = "inheritance_plans"
version = "0.1.0"
edition = "2021"
publish = false

[dependencies]
axum = "=0.7.9"
chrono = { version = "=0.4.45", default-features = false, features = ["clock", "serde"] }
ed25519-dalek = "=2.2.0"
hex = "=0.4.3"
rust_decimal = "=1.43.0"
serde = { version = "1", features = ["derive"] }
serde_json = "1"
sqlx = { version = "=0.8.6", default-features = false, features = ["runtime-tokio", "postgres", "macros", "derive", "uuid", "chrono", "rust_decimal"] }
stellar-strkey = "=1.0.0"
tokio = { version = "1", features = ["sync"] }
tower-http = { version = "=0.5.2", features = ["cors"] }
uuid = { version = "=1.29.0", features = ["serde"] }
