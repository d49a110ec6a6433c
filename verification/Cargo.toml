[package]
name = "agentfs"
version = "0.1.0"
edition = "2021"
publish = false

[dependencies]
libc = "*"
clap = { version = "*", features = ["derive"] }
clap_complete = { version = "*", features = ["unstable-dynamic"] }
dirs = "*"
tokio = { version = "*", features = ["rt-multi-thread"] }
