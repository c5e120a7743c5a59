[package]
name = "lpm_core"
version = "0.1.0"
edition = "2021"
publish = false

[dependencies]
md5 = "*"
sha2 = "*"
min-sqlite3-sys = "*"
