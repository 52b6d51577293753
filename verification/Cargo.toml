[package]
name = "brainfuck-rs-vibe"
version = "0.1.0"
edition = "2021"

[dependencies]
clap = { version = "4", features = ["derive"] }
