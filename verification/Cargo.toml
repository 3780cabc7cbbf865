[package]
name = "dotprompt"
version = "0.1.0"
edition = "2021"
publish = false

[dependencies]
handlebars = "*"
hex = "*"
serde = { version = "*", features = ["derive"] }
serde_json = "*"
serde_yaml = "*"
sha1 = "*"
toml = "*"
unicode-normalization = "*"
urlencoding = "*"
walkdir = "*"
