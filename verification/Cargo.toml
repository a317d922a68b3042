[package]
name = "egui_commonmark"
version = "0.1.0"
edition = "2021"
publish = false

[dependencies]
pulldown-cmark = { version = "0.13", default-features = false }
regex = "1"
url = "2"
data-url = "0.3"
bitflags = "2"
egui = "*"
egui_extras = { version = "*", default-features = false }
image = { version = "0.25", default-features = false, features = ["png"] }
