[package]
name = "envfmt"
version = "0.1.0"
edition = "2021"
publish = false

[dependencies]
async-trait = "0.1"
aws-config = "0.8.0"
aws-sdk-ssm = "0.8.0"
aws-sdk-sts = "0.8.0"
aws-types = "0.8.0"
clap = { version = "3", features = ["derive"] }
dotenv = "0.15"
tokio = { version = "1", features = ["full"] }
tracing = "0.1"
tracing-subscriber = "0.3"
