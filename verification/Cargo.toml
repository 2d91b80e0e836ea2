[package]
name = "minilisp"
version = "0.1.0"
edition = "2021"
publish = false

[dependencies]
logos = "0.12"
rustyline = "10"
rustyline-derive = "0.7"
