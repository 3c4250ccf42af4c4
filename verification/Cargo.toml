[package]
name = "gpt_core"
version = "0.1.0"
edition = "2021"
publish = false

[dependencies]
tch = "*"
tiktoken-rs = "*"
tokio = { version = "1", features = ["fs", "io-util", "macros", "rt-multi-thread"] }

[dev-dependencies]
regex = "1"
