[package]
name = "raidillon"
version = "0.1.0"
edition = "2021"
publish = false

[dependencies]
anyhow = "=1.0.104"
glam = "=0.34.0"
glium = "=0.35.0"
gltf = "=1.4.1"
image = "=0.25.10"
imgui = "=0.12.0"
imgui-glium-renderer = "=0.13.0"
imgui-winit-support = "=0.13.0"
rapier3d = "=0.22.0"
winit = "=0.30.13"
