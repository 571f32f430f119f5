[package]
name = "thumbnailer"
version = "0.1.0"
edition = "2021"
publish = false

[dependencies]
image = "=0.25.10"
serde_json = "*"
log = "*"
simple_logger = "*"
aws_lambda_events = "*"
lambda_runtime = "*"
rust-s3 = { version = "*", default-features = false, features = ["sync"] }
tokio = { version = "*", features = ["macros", "rt"] }
