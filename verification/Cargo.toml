[package]
name = "labview"
version = "0.1.0"
edition = "2021"
publish = false

[dependencies]
chrono = { version = "0.4", default-features = false, features = ["std"] }
itertools = "0.10"
num = { version = "0.4", default-features = false, features = ["std"] }
semver = "0.9"
serde = { version = "1", features = ["derive"] }
