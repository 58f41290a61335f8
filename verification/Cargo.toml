[package]
name = "jieto"
version = "0.1.0"
edition = "2021"
publish = false

[dependencies]
sqlx = { version = "=0.9.0", default-features = false, features = ["runtime-tokio", "mysql", "postgres", "sqlite"] }
deadpool-redis = "=0.23.1"
num_cpus = "=1.17.0"
serde = { version = "=1.0.229", features = ["derive"] }
tokio = { version = "=1.53.2", features = ["rt"] }
toml = "=1.1.7"
