[package]
name = "jete"
version = "0.1.0"
edition = "2021"
publish = false

[dependencies]
ahash = "0.8"
crossbeam = "0.8"
log = "0.4"
log4rs = "1"
syntect = { version = "5", default-features = false, features = ["default-fancy"] }
termion = "2"
