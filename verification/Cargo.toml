[package]
name = "elara_gfx"
version = "0.1.0"
edition = "2021"
publish = false

[dependencies]
png = "=0.17.16"
jpeg-decoder = "=0.3.2"
gl = "=0.14.0"
winit = "=0.25.0"
raw-gl-context = "=0.1.2"
elara_log = "=0.1.3"
freetype-rs = "=0.38.0"
