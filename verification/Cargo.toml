[package]
name = "deadqueue"
version = "0.1.0"
edition = "2021"
publish = false

[dependencies]
crossbeam-queue = "*"
tokio = { version = "*", default-features = false, features = ["sync", "macros", "rt", "time"] }
