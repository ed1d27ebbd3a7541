[package]
name = "pdf_composer"
version = "0.1.0"
edition = "2021"
publish = false

[dependencies]
serde_yml = "*"
markdown = "*"
url-escape = "*"
lopdf = "*"
chromiumoxide = "*"
async-std = "*"
futures = "*"
rayon = "*"
