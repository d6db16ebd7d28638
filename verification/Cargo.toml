[package]
name = "bank_csv"
version = "0.1.0"
edition = "2021"
publish = false

[dependencies]
chrono = "=0.4.45"
csv = "=1.4.0"
encoding_rs = "=0.8.42"
polars = { version = "=0.38.3", features = ["lazy"] }
tempfile = "=3.27.0"
clap = { version = "=4.6.7", features = ["derive"] }
dirs = "=5.0.1"
shellexpand = "=3.1.2"
sorted-vec = "=0.8.11"
