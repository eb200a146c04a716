[package]
name = "duration_gate"
version = "0.1.0"
edition = "2021"
publish = false

[dependencies]
lambda_http = "*"
query_map = "*"
thiserror = "*"
tokio = { version = "*", features = ["macros", "rt-multi-thread"] }
tracing = "*"
tracing-subscriber = "*"
