[package]
name = "city_sim"
version = "0.1.0"
edition = "2021"
publish = false

[dependencies]
rand = "0.8"
rand_distr = "0.4"
serde = { version = "1", features = ["derive"] }
ron = "0.8"
noise = "0.8"
ordered-float = "4"
pathfinding = "4"
array2d = "0.3"
num-traits = "0.2"
itertools = "0.12"
fast-math = "0.1"
