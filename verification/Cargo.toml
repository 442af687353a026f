[package]
name = "dt_connector"
version = "0.1.0"
edition = "2021"
publish = false

[dependencies]
async-trait = "=0.1.92"
concurrent-queue = "=2.5.0"
futures = "=0.3.34"
serde = { version = "=1.0.229", features = ["derive"] }
serde_json = "=1.0.154"
sqlx = { version = "=0.7.4", default-features = false, features = ["runtime-tokio", "mysql", "postgres"] }
tokio = { version = "=1.54.1", features = ["time"] }
