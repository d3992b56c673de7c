[package]
name = "codebase_scanner"
version = "1.0.0"
edition = "2021"
publish = false

[dependencies]
syn = { version = "2", features = ["full"] }
quote = "1"
proc-macro2 = { version = "1", features = ["span-locations"] }
clap = "4"
colored = "2"
