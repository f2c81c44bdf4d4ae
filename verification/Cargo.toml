[package]
name = "shooter_game"
version = "0.1.0"
edition = "2021"
publish = false

[dependencies]
bytemuck = "=1.25.2"
wgpu = "=0.15.1"
winit = "=0.28.7"
winit_input_helper = "=0.14.1"
cgmath = "=0.18.0"
tobj = "=4.0.5"
image = { version = "=0.24.9", default-features = false, features = ["png", "jpeg"] }
egui = "=0.21.0"
egui_wgpu_backend = "=0.22.0"
egui_winit_platform = "=0.18.0"
epi = "=0.17.0"
pollster = "=0.3.0"
instant = "=0.1.13"
log = "=0.4.34"
anyhow = "=1.0.104"
color-eyre = "0.6"
fern = { version = "0.6", features = ["colored"] }
chrono = "0.4"
