[package]
name = "chimely"
version = "0.1.0"
edition = "2021"
publish = false

[dependencies]
anyhow = "1"
axum = "0.8"
base64 = "0.22"
chrono = "0.4"
form_urlencoded = "1"
hex = "0.4"
metrics-exporter-prometheus = { version = "0.17", default-features = false }
serde = { version = "1", features = ["derive"] }
serde_json = "1"
serde_norway = "0.9"
sha2 = "0.10"
sqlx = { version = "0.8", default-features = false, features = ["postgres", "runtime-tokio", "chrono", "uuid", "json"] }
tower-http = { version = "0.6", features = ["cors"] }
tracing = "0.1"
utoipa = { version = "5", features = ["yaml"] }
utoipa-scalar = { version = "0.3", features = ["axum"] }
uuid = "1"
