[package]
name = "rich_rs"
version = "0.1.0"
edition = "2021"
publish = false

[dependencies]
unicode-width = "*"
regex = "*"
once_cell = "*"
atty = "*"
crossterm = "*"
pulldown-cmark = "*"
thiserror = "*"
