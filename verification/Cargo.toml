[package]
name = "devzat_forth"
version = "0.1.0"
edition = "2021"
publish = false

[dependencies]
devzat-rs = "*"
tokio = { version = "*", features = ["macros", "rt-multi-thread"] }
libc = "*"
lazy_static = "*"
