[package]
name = "tailcall_valid"
version = "0.1.0"
edition = "2021"
publish = false

[dependencies]
http = "*"
serde_json = "*"
serde_path_to_error = "*"
