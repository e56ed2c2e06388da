[package]
name = "cargo_hack"
version = "0.1.0"
edition = "2021"
publish = false

[dependencies]
toml_edit = "=0.19.15"
anyhow = "=1.0.104"
termcolor = "=1.4.1"
term_size = "=0.3.2"
libc = "=0.2.190"
