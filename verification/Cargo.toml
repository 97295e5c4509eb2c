[package]
name = "wl-screenrec"
version = "0.1.0"
edition = "2021"
publish = false

[dependencies]
clap = { version = "=4.6.7", features = ["derive"] }
ctrlc = "=3.5.2"
drm-fourcc = "=2.2.0"
ffmpeg-next = "=6.1.1"
wayland-client = "=0.29.5"
wayland-protocols = { version = "=0.29.5", features = ["client", "unstable_protocols"] }
