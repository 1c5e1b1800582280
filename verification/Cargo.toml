[package]
name = "monzo_cli"
version = "0.1.0"
edition = "2021"
publish = false

[dependencies]
anyhow = "*"
config = "*"
console = "*"
dirs = "*"
futures = "*"
monzo-lib = "*"
structopt = "*"
tokio = { version = "*", features = ["io-std", "io-util", "macros", "rt-multi-thread"] }
