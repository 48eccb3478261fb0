[package]
name = "word_of_wisdom"
version = "0.1.0"
edition = "2021"
publish = false

[dependencies]
bincode = "1.3"
rand = "0.8"
sha2 = "0.10"
tokio = { version = "1", features = ["rt-multi-thread", "macros", "net", "io-util"] }
