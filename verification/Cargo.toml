[package]
name = "nmd"
version = "0.1.0"
edition = "2021"
publish = false

[dependencies]
regex = "1"
serde = { version = "1", features = ["derive"] }
serde_json = "1"
serde_yaml = "0.9"
clap = "4"
build_html = "2"
log = "0.4"
simple_logger = "4"
