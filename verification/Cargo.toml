[package]
name = "oddiag"
version = "0.1.0"
edition = "2021"
publish = false

[dependencies]
anyhow = "1"
chrono = "0.4"
clap = "3"
jwalk = "0.8"
normpath = "1"
winreg = "*"
