[package]
name = "last_legend_dob"
version = "0.1.0"
edition = "2021"
publish = false

[dependencies]
crc = "3"
flate2 = "1"
