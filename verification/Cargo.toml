[package]
name = "veracruz"
version = "0.1.0"
edition = "2021"
publish = false

[dependencies]
base64 = "0.13"
serde_json = "1"
sha2 = "0.10"
x509-parser = "*"
serde = { version = "1", features = ["derive"] }
bincode = "1"
reqwest = { version = "0.11", default-features = false, features = ["blocking"] }
actix-web = "4"
mbedtls = "*"
