[package]
name = "soapy_pmt"
version = "0.1.0"
edition = "2021"
publish = false

[dependencies]
serde = { version = "1", features = ["derive"] }
async-lock = "3"
soapysdr = "*"
