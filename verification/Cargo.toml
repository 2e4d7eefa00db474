[package]
name = "awsmfa"
version = "0.1.0"
edition = "2021"
publish = false

[dependencies]
anyhow = "=1.0.104"
aws-config = "=1.12.0"
aws-sdk-sts = "=1.119.0"
aws-types = "=1.6.0"
chrono = "=0.4.45"
clap = { version = "=4.6.7", features = ["derive"] }
cli-clipboard = "=0.4.0"
dirs = "=7.0.0"
regex = "=1.13.1"
serde = { version = "=1.0.229", features = ["derive"] }
serde_yaml = "=0.9.34"
tokio = { version = "=1.54.1", features = ["macros", "rt-multi-thread"] }
totp-rs = "=5.7.2"
