[package]
name = "render_graph"
version = "0.1.0"
edition = "2021"
publish = false

[dependencies]
isf = "*"
serde = { version = "1", features = ["derive"] }
serde_json = "1"
thiserror = "1"
anyhow = "1"
glsl = "*"
glam = { version = "*", features = ["serde"] }
