[package]
name = "gym_log"
version = "0.1.0"
edition = "2021"
publish = false

[dependencies]
aws-config = "*"
aws-sdk-dynamodb = "*"
base64 = "*"
chrono = "*"
lambda_http = "*"
once_cell = "*"
serde = { version = "*", features = ["derive"] }
serde_json = "*"
tokio = { version = "*", features = ["macros", "rt"] }
tokio-stream = "*"
tracing = "*"
tracing-subscriber = "*"
