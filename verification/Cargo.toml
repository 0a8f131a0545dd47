[package]
name = "nazmc"
version = "0.1.0"
edition = "2021"
publish = false

[dependencies]
owo-colors = "4"
pulldown-cmark = "0.10"
pulldown-cmark-to-cmark = "13"
mdbook = { version = "0.4", default-features = false }
serde_json = "1"
