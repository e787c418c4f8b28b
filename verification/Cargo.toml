[package]
name = "wc_lock"
version = "0.1.0"
edition = "2021"
publish = false

[dependencies]
byteorder = "=1.5.0"
clap = "=2.34.0"
dbus = { version = "=0.9.12", features = ["vendored"] }
image = { version = "=0.25.10", default-features = false }
libc = "=0.2.191"
rand = "=0.8.8"
tempfile = "=3.27.0"
wayland-client = "=0.31.15"
wayland-sys = "=0.31.11"
xkbcommon = "=0.9.0"
