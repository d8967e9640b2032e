[package]
name = "four_in_a_row"
version = "0.1.0"
edition = "2021"
publish = false

[dependencies]
axum = { version = "0.8", features = ["multipart"] }
base64 = "0.22"
cargo-manifest = "*"
chrono = { version = "0.4", features = ["serde"] }
htmlescape = "0.3"
json = "0.12"
jsonwebtoken = "9"
jyt = "*"
leaky-bucket = "1"
rand = "=0.8.8"
serde = { version = "1", features = ["derive"] }
serde_json = "1"
shuttle-axum = "*"
shuttle-runtime = "*"
shuttle-shared-db = { version = "*", features = ["postgres", "sqlx"] }
sqlx = { version = "0.8", features = ["postgres", "runtime-tokio", "uuid", "chrono"] }
tokio = { version = "1", features = ["sync"] }
toml = "0.8"
tower-http = { version = "0.6", features = ["fs"] }
tracing = "0.1"
uuid = { version = "1", features = ["serde", "v4"] }
