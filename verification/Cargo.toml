[package]
name = "yolo_fpga"
version = "0.1.0"
edition = "2021"
publish = false

[dependencies]
anyhow = "1"
flate2 = "1"
image = "0.24"
imageproc = "0.23"
log = "0.4"
rusttype = "0.9"
tar = "0.4"
