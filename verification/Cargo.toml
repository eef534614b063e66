[package]
name = "cratestack_macros"
version = "0.1.0"
edition = "2021"
publish = false

[dependencies]
serde_json = "1"
proc-macro2 = "1"
quote = "1"
