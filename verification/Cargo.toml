[package]
name = "dungeon_level"
version = "0.1.0"
edition = "2021"
publish = false

[dependencies]
rand = "0.8"
gl = "0.14"
glam = "0.24"
glutin = "0.29"
image = { version = "0.24", default-features = false, features = ["png"] }
log = "0.4"
rusttype = "0.9"
simple_logger = "4"
thiserror = "1"
walkdir = "2"
