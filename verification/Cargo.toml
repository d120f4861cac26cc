[package]
name = "spellcast"
version = "0.1.0"
edition = "2021"
publish = false

[dependencies]
aes-gcm = "*"
axum = { version = "*", features = ["ws"] }
base64 = "*"
chrono = "*"
dashmap = "*"
futures = "*"
jsonwebtoken = "*"
rand = "0.9"
reqwest = { version = "*", default-features = false, features = ["json"] }
serde = { version = "*", features = ["derive"] }
serde_json = "*"
serde_urlencoded = "*"
sqlx = { version = "*", default-features = false, features = ["runtime-tokio", "postgres", "uuid", "chrono", "macros"] }
tokio = { version = "*", features = ["full"] }
uuid = { version = "*", features = ["v4"] }
