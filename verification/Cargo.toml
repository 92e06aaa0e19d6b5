[package]
name = "question_store"
version = "0.1.0"
edition = "2021"
publish = false

[dependencies]
aws-sdk-dynamodb = "*"
axum = "*"
http = "*"
serde_json = "*"
tokio = { version = "*", features = ["rt-multi-thread", "macros"] }
tracing = "*"
uuid = { version = "*", features = ["v4"] }
