[package]
name = "darling_api"
version = "0.1.0"
edition = "2021"
publish = false

[dependencies]
toml_edit = "0.22"
regex = "1"
regex-macro = "*"
anyhow = "1"
clap = { version = "4", features = ["derive"] }
colored = "2"
