[package]
name = "image_editor"
version = "0.1.0"
edition = "2021"
publish = false

[dependencies]
clap = "4.4.18"
image = "0.24"
num-complex = "0.4"
