[package]
name = "vid_concat_cutter"
version = "0.1.0"
edition = "2021"
publish = false

[dependencies]
anyhow = "=1.0.104"
image = { version = "=0.25.10", default-features = false, features = ["jpeg", "png"] }
ffmpeg-sidecar = { version = "=2.7.0", default-features = false }
eframe = { version = "=0.34.3", default-features = false, features = ["glow", "default_fonts", "x11"] }
rfd = { version = "=0.17.2", default-features = false, features = ["xdg-portal"] }
rodio = { version = "=0.20.1", default-features = false, features = ["wav"] }
