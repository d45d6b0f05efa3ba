[package]
name = "fwx"
version = "0.1.0"
edition = "2021"
publish = false

[dependencies]
anyhow = "1"
binwalk = "3"
capstone = "0.13"
crossterm = "0.28"
object = "0.36"
ratatui = "0.29"
rust-strings = "*"
