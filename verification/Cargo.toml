[package]
name = "term_test"
version = "0.1.0"
edition = "2021"
publish = false

[dependencies]
anyhow = "1"
portable-pty = "0.8"
thiserror = "1"
vt100 = "0.15"
