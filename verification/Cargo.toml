[package]
name = "rat"
version = "0.1.0"
edition = "2021"
publish = false

[dependencies]
chrono = "*"
clap = "*"
config = "*"
directories = "*"
fern = "*"
log = "*"
uuid = { version = "*", features = ["v4"] }
