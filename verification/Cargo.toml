[package]
name = "gridworld"
version = "0.1.0"
edition = "2021"
publish = false

[dependencies]
line_drawing = "=1.0.1"
grid_2d = { version = "=0.16.2", features = ["serialize"] }
ron = "=0.12.2"
serde = { version = "=1.0.229", features = ["derive"] }
cgmath = "=0.18.0"
