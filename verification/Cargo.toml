[package]
name = "wayland_display"
version = "0.1.0"
edition = "2021"
publish = false

[dependencies]
memfd = "=0.6.6"
dma-heap = "=0.4.1"
smithay = { version = "=0.7.0", default-features = false, features = ["backend_drm", "backend_gbm", "backend_egl", "backend_libinput", "backend_udev", "renderer_gl", "wayland_frontend", "xwayland"] }
gstreamer = "0.20"
gstreamer-base = "0.20"
gstreamer-video = "0.20"
gstreamer-allocators = "0.20"
wayland-protocols-wlr = { version = "=0.3.12", features = ["client", "server"] }
wayland-client = "=0.31.15"
