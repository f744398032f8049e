[package]
name = "details"
version = "0.1.0"
edition = "2021"
publish = false

[dependencies]
bstr = "1"
gix = { version = "*", default-features = false, features = ["sha1"] }
ratatui = "0.30"
syntect = { version = "5", default-features = false, features = ["default-fancy"] }
unicode-width = "0.2"
anyhow = "1"
tracing = "0.1"
