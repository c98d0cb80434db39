[package]
name = "bestftp"
version = "0.1.0"
edition = "2021"
publish = false

[dependencies]
async-recursion = "1"
chrono = { version = "0.4", features = ["serde"] }
dirs = "5"
futures-lite = "2"
ignore = "0.4"
serde = { version = "1", features = ["derive"] }
ssh2 = "0.9"
suppaftp = { version = "6", features = ["async"] }
tokio = { version = "1", features = ["full"] }
uuid = { version = "1", features = ["v4"] }
