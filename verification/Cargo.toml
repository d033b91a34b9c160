[package]
name = "grid_arcade"
version = "0.1.0"
edition = "2021"
publish = false

[dependencies]
rand = "0.3"
piston_window = "*"
find_folder = "*"
