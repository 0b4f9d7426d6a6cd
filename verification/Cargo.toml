[package]
name = "proxy70"
version = "0.1.0"
edition = "2021"
publish = false

[dependencies]
ansitok = "*"
anyhow = "1"
async-std = { version = "1", features = ["attributes"] }
clap = { version = "4", features = ["derive"] }
dashmap = "*"
femme = "2"
html-escape = "0.2"
serde = { version = "1", features = ["derive"] }
tide = "0.16"
tinytemplate = "1"
urlencoding = "2"

[dev-dependencies]
regex = "1"
