[package]
name = "hygiene"
version = "0.1.0"
edition = "2021"
publish = false

[dependencies]
ariadne = "*"
enotation = "*"
from-pest = "*"
pest = "*"
serde = { version = "*", features = ["derive"] }
serde_json = "*"
