[package]
name = "parsec_tool"
version = "0.1.0"
edition = "2021"
publish = false

[dependencies]
base64 = "0.13"
sha2 = "0.10"
parsec-client = "*"
structopt = "0.3"
