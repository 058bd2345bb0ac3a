[package]
name = "data_watch"
version = "0.1.0"
edition = "2021"
publish = false

[dependencies]
jmespatch = "*"
cron = "*"
chrono = "*"
percent-encoding = "*"
surf = { version = "*", default-features = false, features = ["h1-client-rustls"] }
async-std = "*"
