[package]
name = "churn_matrix"
version = "0.1.0"
edition = "2021"
publish = false

[dependencies]
sqlx = { version = "*", features = ["sqlite", "runtime-tokio"], default-features = false }
tokio = { version = "*", features = ["rt"], default-features = false }
