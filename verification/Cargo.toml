[package]
name = "coeirobottle"
version = "0.1.0"
edition = "2021"
publish = false

[dependencies]
anyhow = "*"
async-tempfile = "*"
async-walkdir = "*"
async_zip = { version = "*", features = ["full"] }
fs-err = { version = "*", features = ["tokio"] }
futures = "*"
futures-util = "*"
path-dedot = "*"
reqwest = { version = "*", default-features = false, features = ["rustls-tls", "stream"] }
scraper = "*"
semver = "*"
tempfile = "*"
tokio = { version = "*", features = ["rt-multi-thread", "macros", "fs", "io-util", "process", "sync", "time"] }
tokio-util = { version = "*", features = ["compat"] }
