[package]
name = "rust_demo"
version = "0.1.0"
edition = "2021"
publish = false

[dependencies]
rust-crypto = "0.2.36"
rustc-hex = "2"
rustc-serialize = "0.3"
serde = { version = "1", features = ["derive"] }
serde_json = "1"
log = "0.4"
flexi_logger = "*"

[dev-dependencies]
rand = "0.6"
