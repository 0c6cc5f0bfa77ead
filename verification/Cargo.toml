[package]
name = "doer"
version = "0.1.0"
edition = "2021"
publish = false

[dependencies]
tokio = { version = "*", features = ["macros", "rt-multi-thread", "process", "fs", "io-util"] }
clap = "*"
async-recursion = "*"
toml = "*"
serde = { version = "*", features = ["derive"] }
