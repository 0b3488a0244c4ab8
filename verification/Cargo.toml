[package]
name = "zero2prod"
version = "0.1.0"
edition = "2021"
publish = false

[dependencies]
actix-session = { version = "=0.6.2", features = ["redis-rs-session"] }
actix-web = { version = "=4.18.1", default-features = false, features = ["macros", "cookies"] }
actix-web-flash-messages = { version = "=0.4.2", features = ["cookies"] }
anyhow = "=1.0.104"
argon2 = { version = "=0.4.1", features = ["std"] }
base64 = "=0.13.1"
chrono = { version = "=0.4.45", default-features = false, features = ["clock"] }
config = { version = "=0.11.0", default-features = false, features = ["yaml"] }
hex = "=0.4.3"
hmac = { version = "=0.12.1", features = ["std"] }
htmlescape = "=0.3.1"
reqwest = { version = "=0.11.27", default-features = false, features = ["json", "rustls-tls"] }
secrecy = { version = "=0.8.0", features = ["serde"] }
serde = { version = "=1.0.229", features = ["derive"] }
serde-aux = "=3.1.0"
sha2 = "=0.10.9"
sqlx = { version = "=0.6.3", default-features = false, features = ["runtime-actix-rustls", "postgres", "uuid", "chrono", "migrate"] }
thiserror = "=1.0.69"
tokio = { version = "=1.54.1", features = ["macros", "rt-multi-thread", "time"] }
tracing = { version = "=0.1.44", features = ["log"] }
tracing-actix-web = "=0.6.2"
tracing-subscriber = { version = "0.3", features = ["registry", "env-filter", "fmt"] }
unicode-segmentation = "=1.13.3"
urlencoding = "=2.1.3"
uuid = { version = "=1.29.0", features = ["v4"] }
validator = "=0.16.1"
