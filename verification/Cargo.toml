[package]
name = "waywall"
version = "0.1.0"
edition = "2021"
publish = false

[dependencies]
anyhow = "=1.0.104"
calloop = "=0.13.0"
calloop-wayland-source = "=0.3.0"
ffmpeg-sys-next = "=9.0.1"
gl = "=0.14.0"
libc = "=0.2.191"
libmpv2 = "=3.0.0"
nix = { version = "=0.29.0", features = ["poll"] }
tracing = "=0.1.44"
tracing-subscriber = { version = "=0.3.23", features = ["env-filter"] }
wayland-backend = { version = "=0.3.17", features = ["client_system", "dlopen"] }
wayland-client = "=0.31.15"
wayland-protocols = { version = "=0.31.2", features = ["client", "unstable", "staging"] }
wayland-protocols-wlr = { version = "=0.2.0", features = ["client"] }
