[package]
name = "planner"
version = "0.1.0"
edition = "2021"
publish = false

[dependencies]
arguments = "*"
sql = "*"
sqlite = "*"
term = "*"
