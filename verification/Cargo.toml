[package]
name = "prompt_fmt"
version = "0.1.0"
edition = "2021"
publish = false

[dependencies]
rust-ini = "*"
log = "*"
async-std = "*"
serde = { version = "*", features = ["derive"] }
