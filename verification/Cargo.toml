[package]
name = "delivr"
version = "0.1.0"
edition = "2021"
publish = false

[dependencies]
serde_json = "*"
serde = { version = "*", features = ["derive"] }
tokio = { version = "*", features = ["full"] }
axum = "*"
sqlx = { version = "*", default-features = false, features = ["postgres", "runtime-tokio", "tls-rustls", "chrono", "migrate"] }
reqwest = { version = "*", default-features = false, features = ["json", "rustls-tls"] }
chrono = { version = "*", features = ["serde"] }
secrecy = { version = "*", features = ["serde"] }
config = { version = "*", features = ["yaml"] }
dotenvy = "*"
serde-aux = "*"
tracing = "*"
tracing-log = "*"
tracing-subscriber = { version = "*", features = ["env-filter", "fmt"] }
