[package]
name = "pdf"
version = "0.1.0"
edition = "2021"
publish = false

[dependencies]
printpdf = { version = "0.7", default-features = false }

[dev-dependencies]
lopdf = "*"
