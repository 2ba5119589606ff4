[package]
name = "grpc_proxier"
version = "0.1.0"
edition = "2021"
publish = false

[dependencies]
argon2 = "=0.6.0"
base64 = "=0.23.1"
bytes = "=1.12.1"
http = "=1.5.0"
http-body-util = "=0.1.5"
hyper = { version = "=1.12.0", features = ["http1", "http2", "server", "client"] }
hyper-util = { version = "=0.1.21", features = ["client-legacy", "server", "http1", "http2", "tokio"] }
prometheus = "=0.14.0"
serde = { version = "=1.0.229", features = ["derive"] }
tokio = { version = "=1.53.2", features = ["macros", "rt-multi-thread", "net"] }
toml = "=1.1.7"
tracing = "*"
tracing-subscriber = { version = "*", features = ["env-filter"] }
