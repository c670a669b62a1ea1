[package]
name = "replman"
version = "0.1.0"
edition = "2021"
publish = false

[dependencies]
anyhow = "1"
convert_case = "0.4"
rustyline = "9"
syn = { version = "1", features = ["full", "extra-traits"] }
