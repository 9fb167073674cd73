[package]
name = "kvdb_rs"
version = "0.1.0"
edition = "2021"
publish = false

[dependencies]
axum = { version = "=0.7.9", features = ["macros"] }
chrono = { version = "=0.4.45", features = ["serde"] }
dotenv = "=0.15.0"
regex = "=1.13.1"
serde = { version = "=1.0.229", features = ["derive"] }
sqlx = { version = "=0.8.6", default-features = false, features = ["runtime-tokio", "postgres", "chrono", "macros", "migrate"] }
tokio = { version = "=1.54.1", features = ["full"] }
tower_governor = "=0.4.3"
tower-http = { version = "=0.6.11", features = ["cors"] }
utoipa = "=4.2.3"
utoipa-swagger-ui = { version = "=7.1.0", features = ["axum", "vendored"] }
uuid = { version = "=1.29.0", features = ["v4"] }
