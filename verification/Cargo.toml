[package]
name = "drafts"
version = "0.1.0"
edition = "2021"
publish = false

[dependencies]
nalgebra = "=0.35.0"
reqwest = { version = "=0.13.5", default-features = false, features = ["blocking", "query"] }
