[package]
name = "http_cache_hyper"
version = "0.1.0"
edition = "2021"
publish = false

[dependencies]
http = "0.2"
http-cache = { version = "0.11", default-features = false }
http-cache-semantics = "1.0"
url = "2"
anyhow = "1"
async-trait = "0.1"
hyper = { version = "0.14", features = ["client", "http1", "http2", "tcp"] }
