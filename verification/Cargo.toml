[package]
name = "lakka"
version = "0.1.0"
edition = "2021"
publish = false

[dependencies]
tokio = { version = "1", features = ["sync", "time", "rt", "rt-multi-thread", "macros"] }
futures = "0.3"
kanal = "*"
syn = { version = "2", features = ["full"] }
quote = "1"
proc-macro2 = "1"
