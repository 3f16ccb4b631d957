[package]
name = "supervisor_tools"
version = "0.1.0"
edition = "2021"
publish = false

[dependencies]
flate2 = "1"
portable-atomic = "1"
proc-macro2 = { version = "1", features = ["span-locations"] }
quote = "1"
serde_json = "1"
syn = { version = "2", features = ["full", "extra-traits"] }
