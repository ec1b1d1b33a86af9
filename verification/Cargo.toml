[package]
name = "docx_lib"
version = "0.1.0"
edition = "2021"
publish = false

[dependencies]
docx-rs = "*"
serde_json = "*"
log = "*"
log-panics = "*"
android_logger = "*"
