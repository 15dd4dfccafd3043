[package]
name = "pixel_probe"
version = "0.1.0"
edition = "2021"
publish = false

[dependencies]
anyhow = "=1.0.104"
ashpd = { version = "=0.13.13", features = ["screencast"] }
clap = { version = "=4.6.7", features = ["derive"] }
ctrlc = "=3.5.2"
evdev = { version = "=0.13.2", features = ["tokio"] }
evdevil = "=0.5.0"
futures = "=0.3.34"
image = { version = "=0.25.10", default-features = false }
pipewire = "=0.10.1"
tokio = { version = "=1.54.1", features = ["full"] }
tracing = "=0.1.44"
tracing-subscriber = { version = "=0.3.23", features = ["env-filter"] }
