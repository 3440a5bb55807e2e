[package]
name = "ballgame"
version = "0.1.0"
edition = "2021"
publish = false

[dependencies]
anyhow = "=1.0.104"
bitcode = "=0.6.9"
env_logger = "=0.11.11"
glam = "=0.33.12"
log = "=0.4.35"
rapier3d = "=0.36.1"
rapier3d-meshloader = "=0.36.1"
wgpu = "=30.0.1"
