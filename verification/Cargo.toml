[package]
name = "glbtex"
version = "0.1.0"
edition = "2021"
publish = false

[dependencies]
serde_json = "=1.0.151"
image = "=0.25.10"
ddsfile = "=0.6.0"
intel_tex_2 = "=0.3.0"
