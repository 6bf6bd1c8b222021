[package]
name = "xlsxwriter"
version = "0.1.0"
edition = "2021"
publish = false

[dependencies]
libxlsxwriter-sys = "*"
miniz_oxide = "*"
