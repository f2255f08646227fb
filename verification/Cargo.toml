[package]
name = "lazyreq"
version = "0.1.0"
edition = "2021"
publish = false

[dependencies]
colored = "2"
home = "0.5"
mime_guess = "2"
regex = "1"
reqwest = { version = "0.12", features = ["multipart"] }
serde_json = "1"
tokio = { version = "1", features = ["macros", "rt-multi-thread"] }
