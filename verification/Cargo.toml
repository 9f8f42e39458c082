[package]
name = "workers_connect"
version = "0.1.0"
edition = "2021"
publish = false

[dependencies]
http = "1"
tower = { version = "0.5", features = ["util"] }
bytes = "1"
http-body-util = "0.1"
futures = "0.3"
serde = { version = "1", features = ["derive"] }
connectrpc = "*"
buffa = "*"
worker = { version = "*", features = ["http", "d1"] }
tokio = { version = "1", features = ["macros", "rt-multi-thread", "time"] }
