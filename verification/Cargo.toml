[package]
name = "space_weather"
version = "0.1.0"
edition = "2021"
publish = false

[dependencies]
anyhow = "1"
chrono = "0.4"
chrono-tz = "*"
dotenv = "0.15"
regex = "1"
reqwest = { version = "*", default-features = false, features = ["rustls-tls"] }
serde = { version = "1", features = ["derive"] }
serde_json = "1"
sqlx = { version = "*", default-features = false, features = ["postgres", "runtime-tokio", "chrono"] }
thiserror = "*"
tokio = { version = "1", features = ["macros", "rt-multi-thread"] }
