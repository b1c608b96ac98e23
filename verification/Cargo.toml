[package]
name = "shell_ast"
version = "0.1.0"
edition = "2021"
publish = false

[dependencies]
either = "1"
globset = "0.4"
libc = "0.2"
