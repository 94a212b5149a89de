[package]
name = "hks-shell"
version = "0.1.0"
edition = "2021"
publish = false

[dependencies]
bytemuck = { version = "=1.25.2", features = ["derive"] }
freedesktop-desktop-entry = { version = "=0.8.4", default-features = false }
freedesktop-icons = "=0.4.0"
fuzzy-matcher = "=0.3.7"
glyphon = "=0.12.0"
image = { version = "=0.25.10", default-features = false, features = ["png"] }
pollster = "=1.0.1"
raw-window-handle = "=0.6.2"
resvg = "=0.49.0"
smithay-client-toolkit = "=0.20.0"
wayland-backend = { version = "=0.3.17", features = ["client_system", "dlopen"] }
wayland-client = "=0.31.15"
wayland-protocols = { version = "=0.32.13", features = ["client", "staging"] }
wgpu = "=30.0.1"
