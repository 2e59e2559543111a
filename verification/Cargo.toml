[package]
name = "window-mru"
version = "0.1.0"
edition = "2021"
publish = false

[dependencies]
anyhow = "=1.0.104"
knuffel = "=3.2.0"
pango = { version = "=0.22.9", features = ["v1_44"] }
pangocairo = "=0.22.9"
smithay = { version = "=0.7.0", default-features = false, features = ["wayland_frontend"] }
tracy-client = { version = "=0.19.0", default-features = false }
wayland-server = "=0.31.14"
xkeysym = "=0.2.1"
