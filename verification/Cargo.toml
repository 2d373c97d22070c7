[package]
name = "md_sanitize"
version = "0.1.0"
edition = "2021"
publish = false

[dependencies]
pulldown-cmark = "*"
pulldown-cmark-escape = "*"
regex-lite = "*"
