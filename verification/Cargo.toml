[package]
name = "vslam_features"
version = "0.1.0"
edition = "2021"
publish = false

[dependencies]
image = "*"
imageproc = "*"
rand = "*"
num-traits = "*"
