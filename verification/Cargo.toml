[package]
name = "ecrecover"
version = "0.1.0"
edition = "2021"
publish = false

[dependencies]
anyhow = "1"
k256 = { version = "0.13", features = ["ecdsa", "bits"] }
sp1-lib = "*"

[dev-dependencies]
alloy-primitives = "*"
