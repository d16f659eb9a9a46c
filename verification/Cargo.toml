[package]
name = "copper"
version = "0.1.0"
edition = "2021"
publish = false

[dependencies]
ash = "=0.30.0"
cgmath = "=0.17.0"
console = "=0.9.2"
dialoguer = "=0.5.1"
notify = "=5.0.0-pre.2"
probability = "=0.17.0"
rand = "=0.7.3"
rusqlite = { version = "=0.21.0", features = ["bundled"] }
vulkano = "=0.11.1"
winapi = { version = "=0.3.9", features = ["windef", "libloaderapi"] }
winit = "=0.19.5"
