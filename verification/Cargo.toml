[package]
name = "regexp_tester"
version = "0.1.0"
edition = "2021"
publish = false

[dependencies]
regex = "*"
clap = { version = "*", features = ["derive"] }
ctrlc = "*"
inquire = "*"
