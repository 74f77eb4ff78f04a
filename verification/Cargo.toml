[package]
name = "pgn_evals"
version = "0.1.0"
edition = "2021"
publish = false

[dependencies]
shakmaty = "0.20"
pgn-reader = "0.19"

[dev-dependencies]
regex = "=1.13.1"
