[package]
name = "rft"
version = "0.1.0"
edition = "2021"
publish = false

[dependencies]
byteorder = "1"
sha2 = "0.10"
rand = "0.8"
pnet = "0.35"
dns-lookup = "1"
log = "0.4"
simplelog = "0.12"
pretty-hex = "0.3"
serde = { version = "1", features = ["derive"] }
