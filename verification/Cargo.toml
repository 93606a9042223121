[package]
name = "xtask"
version = "0.1.0"
edition = "2021"
publish = false

[dependencies]
anyhow = "=1.0.104"
proc-macro2 = "=1.0.107"
quote = "=1.0.47"
structopt = { version = "=0.3.26", default-features = false }
syn = { version = "=2.0.119", features = ["full", "extra-traits"] }
