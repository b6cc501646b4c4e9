[package]
name = "cliphist"
version = "0.1.0"
edition = "2021"
publish = false

[dependencies]
abi_stable = "*"
anyrun-plugin = "*"
fuzzy-matcher = "*"
ron = "*"
serde = { version = "1", features = ["derive"] }
thiserror = "*"
