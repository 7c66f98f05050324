[package]
name = "tile_nav"
version = "0.1.0"
edition = "2021"
publish = false

[dependencies]
pathfinding = "*"
grid = "*"
rand = { version = "*", features = ["small_rng"] }
image = { version = "*", default-features = false, features = ["png"] }
serde = { version = "*", features = ["derive"] }
ron = "*"
