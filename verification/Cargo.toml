[package]
name = "skybox"
version = "0.1.0"
edition = "2021"
publish = false

[dependencies]
rand = "0.8"
rand_xoshiro = "0.6"
configparser = "3"
png = "0.16"
