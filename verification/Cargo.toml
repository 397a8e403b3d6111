[package]
name = "dvm"
version = "0.1.0"
edition = "2021"
publish = false

[dependencies]
anyhow = "1"
regex = "1"
reqwest = { version = "0.12", default-features = false, features = ["blocking", "rustls-tls"] }
semver-parser = "0.9"
tempfile = "3"
url = "2"
which = "4"
