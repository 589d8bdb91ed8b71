[package]
name = "metrics_merger"
version = "0.1.0"
edition = "2021"
publish = false

[dependencies]
actix-web = "*"
futures = "*"
lazy_static = "*"
log = "*"
log4rs = "*"
reqwest = { version = "*", default-features = false }
