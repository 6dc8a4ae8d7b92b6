[package]
name = "drawing-tablet"
version = "0.1.0"
edition = "2021"
publish = false

[dependencies]
anyhow = "1"
ashpd = { version = "0.10", default-features = false, features = ["tokio"] }
bincode = "1.3"
chrono = { version = "0.4", default-features = false, features = ["clock", "std"] }
drm-fourcc = "2"
eframe = { version = "0.29", default-features = false, features = ["default_fonts", "glow", "wayland", "x11"] }
evdev = "0.12"
image = { version = "0.25", default-features = false, features = ["png"] }
libc = "0.2"
thiserror = "1"
tokio = { version = "1", features = ["full"] }
tracing = "0.1"
tracing-subscriber = { version = "0.3", features = ["env-filter"] }
