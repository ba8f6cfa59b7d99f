[package]
name = "minit"
version = "0.1.0"
edition = "2021"
publish = false

[dependencies]
bson = "2"
toml = "0.8"
log = "0.4"
clap = "3"
tokio = { version = "1", features = ["macros", "rt-multi-thread"] }
mongodb = "3"
simplelog = "0.12"
