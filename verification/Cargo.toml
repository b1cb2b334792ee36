[package]
name = "dioxus-query"
version = "0.1.0"
edition = "2021"
publish = false

[dependencies]
tokio = { version = "1", features = ["time", "sync"] }
instant = "0.1"
futures-util = "0.3"
dioxus-lib = "0.6"
warnings = "0.2"
syn = { version = "2", features = ["full"] }
quote = "1"
proc-macro2 = "1"
