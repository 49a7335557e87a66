[package]
name = "eflect"
version = "0.1.0"
edition = "2021"
publish = false

[dependencies]
clap = "2"
ctrlc = "3"
procfs = "*"
serde_json = "1"
