[package]
name = "werver"
version = "0.1.0"
edition = "2021"
publish = false

[dependencies]
rand = "0.8"
itertools = "0.13"
syn = { version = "2", features = ["full"] }
quote = "1"
proc-macro2 = "1"
