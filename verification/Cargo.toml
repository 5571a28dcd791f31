[package]
name = "nmcu"
version = "0.1.0"
edition = "2021"
publish = false

[dependencies]
clap = "*"
mio = { version = "*", features = ["os-poll", "os-ext"] }
mio-serial = "*"
