[package]
name = "gamescope-idle"
version = "0.1.0"
edition = "2021"
publish = false

[dependencies]
anyhow = "1"
calloop = "0.14"
calloop-wayland-source = "0.4"
clap = { version = "4", features = ["derive"] }
directories = "6"
evdev = { version = "0.13", features = ["tokio"] }
futures-util = "0.3"
libc = "0.2"
serde = { version = "1", features = ["derive"] }
smithay-client-toolkit = { version = "0.20", default-features = false, features = ["calloop"] }
tokio = { version = "1", features = ["full"] }
toml = "0.9"
tracing = "0.1"
tracing-subscriber = { version = "0.3", features = ["env-filter"] }
wayland-client = "0.31"
x11rb = { version = "0.13", features = ["shape"] }
zbus = { version = "5", default-features = false, features = ["tokio"] }
