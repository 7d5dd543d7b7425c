[package]
name = "fbx_viewer"
version = "0.1.0"
edition = "2021"
publish = false

[dependencies]
anyhow = "*"
clap = { version = "*", features = ["derive"] }
fbxcel-dom = "*"
image = "*"
