[package]
name = "termdown"
version = "0.1.0"
edition = "2021"
publish = false

[dependencies]
ansi_term = "0.12"
atty = "0.2"
markdown = "0.3"
syntect = { version = "5", default-features = false, features = ["default-fancy"] }
textwrap = { version = "0.16", default-features = false, features = ["unicode-width"] }
