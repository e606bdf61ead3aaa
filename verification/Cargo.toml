[package]
name = "rust_commands"
version = "0.1.0"
edition = "2021"
publish = false

[dependencies]
tokio = { version = "1", features = ["sync", "macros", "rt", "time"] }
futures = "0.3"
async-trait = "0.1"
syn = "2"
quote = "1"
darling = "0.20"
proc-macro2 = "1"
