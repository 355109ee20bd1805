[package]
name = "dtrwm"
version = "0.1.0"
edition = "2021"
publish = false

[dependencies]
bitflags = "2"
env_logger = "0.11"
libc = "0.2"
log = "0.4"
serde = { version = "1", features = ["derive"] }
toml = "0.8"
wayland-backend = "0.3"
wayland-client = "0.31"
wayland-scanner = "0.31"
xdg = "2.5"
xkbcommon = "0.8"
