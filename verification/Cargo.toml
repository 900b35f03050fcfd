[package]
name = "ponos"
version = "0.1.0"
edition = "2021"
publish = false

[dependencies]
once_cell = "1"
ordered-float = "4"
rustyline = "14"
serde_json = "1"
ureq = "2"
winnow = "0.6"
