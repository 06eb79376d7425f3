[package]
name = "nestify"
version = "0.3.3"
edition = "2021"
publish = false

[dependencies]
proc-macro2 = "1"
quote = "1"
syn = { version = "2", features = ["full", "extra-traits"] }
proc-macro-error = { version = "1", default-features = false }
