[package]
name = "barcode_evidence"
version = "0.1.0"
edition = "2021"
publish = false

[dependencies]
clap = { version = "=3.2.25", features = ["derive"] }
rust-htslib = { version = "=0.44.1", default-features = false }
