[package]
name = "todo_cli"
version = "0.9.0"
edition = "2021"
publish = false

[dependencies]
async-trait = "*"
console = "*"
serde_json = "*"
tokio = { version = "1", features = ["fs", "io-std", "io-util", "macros", "rt-multi-thread"] }
