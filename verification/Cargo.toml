[package]
name = "pcb_forge"
version = "0.1.0"
edition = "2021"
publish = false

[dependencies]
anyhow = "*"
argh = "*"
camino = "*"
log = "*"
nalgebra = "*"
serde = { version = "*", features = ["derive"] }
simple_logger = "*"
svg_composer = "*"
uom = "*"
