[package]
name = "mysql_ibdinspect"
version = "0.1.0"
edition = "2021"
publish = false

[dependencies]
flate2 = "1"
clap = { version = "4", features = ["derive"] }
libz-sys = "1"
