[package]
name = "podocpodoc"
version = "0.1.0"
edition = "2021"
publish = false

[dependencies]
ropey = { version = "1.6", default-features = false }
crossterm = "0.28"
