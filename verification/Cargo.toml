[package]
name = "license_generator"
version = "0.1.0"
edition = "2021"
publish = false

[dependencies]
aws-config = "1"
aws-sdk-lambda = "1"
aws-smithy-runtime-api = "1"
aws-smithy-types = "1"
chrono = { version = "0.4", features = ["serde"] }
hmac = "0.12"
jwt = "0.16"
lambda_runtime = "*"
serde = { version = "1", features = ["derive"] }
serde_json = "1"
sha2 = "0.10"
thiserror = "*"
tokio = { version = "1", features = ["macros", "rt"] }
uuid = { version = "1", features = ["serde"] }
wrzasqpl-commons-aws = "*"
