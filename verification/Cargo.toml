[package]
name = "addon_core"
version = "0.1.0"
edition = "2021"
publish = false

[dependencies]
async-std = "1.6"
iced = "0.1"
isahc = "0.9"
serde = { version = "1.0", features = ["derive"] }
serde_derive = "1.0"
