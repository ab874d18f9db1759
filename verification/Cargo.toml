[package]
name = "kepler"
version = "0.1.0"
edition = "2021"
publish = false

[dependencies]
bnum = { version = "=0.12.1", features = ["numtraits"] }
num-integer = "=0.1.47"

[dev-dependencies]
rand = "=0.8.8"
