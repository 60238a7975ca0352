[package]
name = "trenchcoat"
version = "0.1.0"
edition = "2021"
publish = false

[dependencies]
fixed = { version = "1", features = ["serde"] }
cordic = "0.1"
serde = { version = "1", features = ["derive"] }
postcard = { version = "1", features = ["alloc"] }
anyhow = "1"
clap = { version = "4", features = ["derive"] }
log = "0.4"
pretty_env_logger = "*"
swc_common = "*"
swc_ecma_ast = "*"
swc_ecma_parser = "*"
