[package]
name = "starstruck"
version = "0.1.0"
edition = "2021"
publish = false

[dependencies]
gfx-hal = "0.2"
gfx-backend-empty = "0.2"
