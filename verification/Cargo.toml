[package]
name = "iggy_dissector"
version = "0.1.0"
edition = "2021"
publish = false

[dependencies]
anyhow = "=1.0.104"
bytes = "=1.12.1"
hex = "=0.4.3"
iggy_common = "=0.7.0"
tokio = { version = "=1.54.1", features = ["rt-multi-thread", "macros", "net", "io-util", "time"] }
