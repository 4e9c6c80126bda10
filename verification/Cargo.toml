[package]
name = "zkrun"
version = "0.1.0"
edition = "2021"
publish = false

[dependencies]
k256 = "*"
sha2 = "*"
tiny-keccak = { version = "*", features = ["keccak"] }

[dev-dependencies]
minicbor = "*"
