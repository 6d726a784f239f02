[package]
name = "fzh"
version = "0.1.0"
edition = "2021"
publish = false

[dependencies]
backtrace-on-stack-overflow = "*"
console = "0.15"
ctrlc = "3"
dialoguer = { version = "0.10", features = ["fuzzy-select"] }
fasthash = "0.4"
fuzzy-matcher = "0.3"
home = "0.5"
indoc = "2"
regex = "1"
tantivy = "0.19"
ulid = "1"
