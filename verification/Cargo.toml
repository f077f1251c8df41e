[package]
name = "coroutine_scheduler"
version = "0.1.0"
edition = "2021"
publish = false

[dependencies]
clap = { version = "*", features = ["derive"] }
mlua = { version = "*", features = ["lua54", "vendored"] }
rand = "*"
