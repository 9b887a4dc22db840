[package]
name = "volentscript"
version = "0.1.0"
edition = "2021"
publish = false

[dependencies]
clap = { version = "4", features = ["derive"] }
inkwell = { version = "0.9", features = ["llvm22-1"] }
