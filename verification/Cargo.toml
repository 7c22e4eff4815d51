[package]
name = "async_locks"
version = "0.1.0"
edition = "2021"
publish = false

[dev-dependencies]
futures = "=0.3.34"
smol = "=2.0.2"
