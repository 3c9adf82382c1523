[package]
name = "ike"
version = "0.1.0"
edition = "2021"
publish = false

[dependencies]
uuid = "1"
crossbeam = "0.8"
syn = { version = "1", features = ["full", "extra-traits"] }
quote = "1"
proc-macro2 = "1"
proc-macro-crate = "1"
