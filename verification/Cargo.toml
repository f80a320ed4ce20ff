[package]
name = "hyper_router"
version = "0.5.0"
edition = "2021"
publish = false

[dependencies]
hyper = "0.12"
futures = "0.1"
