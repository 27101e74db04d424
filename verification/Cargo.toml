[package]
name = "bezier"
version = "0.1.0"
edition = "2021"

[dependencies]
num = "0.4"
png = "0.17"
rayon = "1"

[dev-dependencies]
rand = "0.8"
