[package]
name = "noise_world"
version = "0.1.0"
edition = "2021"

[dependencies]
crossterm = "*"
fastnoise-lite = "*"
rand = "*"
