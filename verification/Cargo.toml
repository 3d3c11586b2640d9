[package]
name = "rioterm"
version = "0.1.0"
edition = "2021"
publish = false

[dependencies]
cpal = "0.15"
dirs = "6"
onig = { version = "6", default-features = false }
regex = "1"
rustc-hash = "2"
smallvec = "1"
tracing = "0.1"
url = "2"

[dev-dependencies]
unicode-width = "0.2"
