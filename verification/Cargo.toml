[package]
name = "hackernews_tui"
version = "0.1.0"
edition = "2021"
publish = false

[dependencies]
url = "2"
syn = "2"
quote = "1"
proc-macro2 = "1"
