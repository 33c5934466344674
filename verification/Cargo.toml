[package]
name = "adder_jit"
version = "0.1.0"
edition = "2021"
publish = false

[dependencies]
dynasmrt = "*"
sexp = "*"
