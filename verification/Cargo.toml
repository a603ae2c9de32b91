[package]
name = "readme_generator"
version = "0.1.1"
edition = "2021"
publish = false

[dependencies]
include_dir = "0.7"
dialoguer = "0.11"
clipboard = "0.5"
dirs = "5"
clap = "4"
