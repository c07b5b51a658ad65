[package]
name = "ruva"
version = "0.1.0"
edition = "2021"
publish = false

[dependencies]
serde = "=1.0.229"
tokio = { version = "=1.53.2", features = ["rt", "rt-multi-thread", "sync"] }
chrono = "=0.4.45"
sqlx = { version = "=0.8.6", default-features = false, features = ["postgres", "runtime-tokio"] }
opentelemetry = { version = "=0.33.0", features = ["trace"] }
