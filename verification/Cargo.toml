[package]
name = "pinpatr"
version = "1.6.0"
edition = "2021"
publish = false

[dependencies]
anyhow = "1"
clap = { version = "4", features = ["derive"] }
regex = "1"
thiserror = "1"
unicode-normalization = "0.1"
