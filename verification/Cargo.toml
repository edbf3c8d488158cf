[package]
name = "validate_toolpath"
version = "0.1.0"
edition = "2021"
publish = false

[dependencies]
native-dialog = "*"
owo-colors = "*"
