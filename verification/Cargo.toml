[package]
name = "header"
version = "0.1.0"
edition = "2021"
publish = false

[dependencies]
anyhow = "1"
clap = { version = "2.33", default-features = false }

[dev-dependencies]
rand = "0.8"
