[package]
name = "game_of_life"
version = "0.1.0"
edition = "2021"
publish = false

[dependencies]
glium = "0.32"
nalgebra = "0.32"
rand = "0.8"
tobj = "4"
