[package]
name = "tiff_reader"
version = "0.1.0"
edition = "2021"

[dependencies]
endianness = "=0.2.0"
