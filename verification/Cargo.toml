[package]
name = "exo"
version = "0.1.0"
edition = "2021"
publish = false

[dependencies]
glam = "*"
rand = "*"
rand_distr = "*"
log = "*"
env_logger = "*"
error-iter = "*"
