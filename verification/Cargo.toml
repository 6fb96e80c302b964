[package]
name = "mauzi"
version = "0.1.0"
edition = "2021"
publish = false

[dependencies]
literalext = "=0.2.0"
proc-macro2 = "=0.2.3"
