[package]
name = "egg_mode"
version = "0.1.0"
edition = "2021"
publish = false

[dependencies]
futures = "=0.3.34"
hyper = { version = "=0.14.32", features = ["client", "http1", "tcp"] }
hyper-tls = "=0.5.0"
rustc-serialize = "=0.3.25"
