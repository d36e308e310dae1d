[package]
name = "pax-compiler"
version = "0.1.0"
edition = "2021"
publish = false

[dependencies]
itertools = "0.10"
toml_edit = "0.19"
serde = { version = "1", features = ["derive"] }
serde_json = "1"
colored = "2"
include_dir = "0.7"
rust-format = "0.3"
