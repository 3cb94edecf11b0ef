[package]
name = "eventack"
version = "0.1.0"
edition = "2021"
publish = false

[dependencies]
ciborium = "=0.2.2"
lz4 = "=1.28.1"
sha2 = "=0.10.9"
uuid = { version = "=1.29.0", features = ["v7", "serde"] }
serde = { version = "=1.0.229", features = ["derive"] }
serde_json = "=1.0.154"
actix-web = "=4.18.1"
sqlx = { version = "=0.8.6", default-features = false, features = ["runtime-tokio", "postgres", "uuid", "json"] }
tokio = { version = "=1.54.1", features = ["macros", "rt-multi-thread"] }
dotenv = "=0.15.0"
