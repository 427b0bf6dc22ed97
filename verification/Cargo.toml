[package]
name = "zipit"
version = "0.4.0"
edition = "2021"
publish = false

[dependencies]
chrono = "0.4"
crc32fast = "1"
futures-util = { version = "0.3", features = ["io"] }
tokio = { version = "1", features = ["fs", "io-util", "macros", "rt"] }

[dev-dependencies]
zip = { version = "*", default-features = false }
