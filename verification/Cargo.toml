[package]
name = "tex2typ"
version = "0.1.0"
edition = "2021"
publish = false

[dependencies]
sha1 = "*"
serde_json = "*"
markdown = "*"
base64 = "*"
url = "*"
argh = "*"
