[package]
name = "tls_codec"
version = "0.1.0"
edition = "2021"
publish = false

[dependencies]
anyhow = "1"
byteorder = "1"
nom = "7"
rand = "0.8"
rsa = "0.9"
x509-parser = "0.16"
