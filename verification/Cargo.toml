[package]
name = "epubapi"
version = "0.1.0"
edition = "2021"
publish = false

[dependencies]
roxmltree = "=0.20.0"
uuid = { version = "=1.27.0", features = ["v4"] }
tokio = { version = "=1.53.2", default-features = false, features = ["rt-multi-thread", "macros"] }
aws-config = { version = "=1.12.0", default-features = false }
aws-sdk-s3 = { version = "=1.152.0", default-features = false }
sqlx = { version = "=0.8.6", default-features = false, features = ["runtime-tokio", "postgres"] }
