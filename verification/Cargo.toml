[package]
name = "tello"
version = "0.1.0"
edition = "2021"
publish = false

[dependencies]
png = "0.16"
gstreamer = "0.15"
gstreamer-app = "0.15"
vulkano = "0.19"
vulkano-shaders = "0.19"
vulkano-win = "0.19"
winit = "0.22"
