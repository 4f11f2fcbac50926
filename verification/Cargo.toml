[package]
name = "minado"
version = "0.1.0"
edition = "2021"
publish = false

[dependencies]
rand = "0.7"
chrono = "0.4"
clap = "2.33"
