[package]
name = "avalanche_formats"
version = "0.1.0"
edition = "2021"
publish = false

[dependencies]
flate2 = "1"
glob = "0.3"
png = "*"
texpresso = "*"
webp = { version = "*", default-features = false }
