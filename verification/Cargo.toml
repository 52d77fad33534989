[package]
name = "smithy_pool"
version = "0.1.0"
edition = "2021"
publish = false

[dependencies]
aws-smithy-runtime-api = { version = "1", features = ["client", "http-1x"] }
hyper = { version = "1", features = ["client", "http1", "http2"] }
