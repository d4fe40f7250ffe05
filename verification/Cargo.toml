[package]
name = "rays"
version = "0.1.0"
edition = "2021"
publish = false

[dependencies]
atomic_refcell = "0.1"
pixels = "0.11"
rayon = "1"
ron = "0.8"
serde = { version = "1", features = ["derive"] }
winit = "0.27"
winit_input_helper = "0.13"
