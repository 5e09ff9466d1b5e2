[package]
name = "srpc"
version = "0.1.0"
edition = "2021"
publish = false

[dependencies]
canary = "*"
tokio = { version = "*", features = ["rt", "macros"] }
serde = { version = "*", features = ["derive"] }
serde_repr = "*"
compact_str = "*"
