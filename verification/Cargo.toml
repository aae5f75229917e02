[package]
name = "door_player"
version = "0.1.0"
edition = "2021"
publish = false

[dependencies]
anyhow = "=1.0.104"
atomic = "=0.6.1"
bytemuck = "=1.25.2"
chrono = "=0.4.45"
cpal = "=0.18.2"
eframe = { version = "=0.37.0", default-features = false, features = ["wgpu", "default_fonts"] }
egui = "=0.37.0"
env_logger = "=0.11.11"
ffmpeg-next = "=9.0.0"
kanal = "=0.1.1"
log = "=0.4.34"
parking_lot = "=0.12.5"
reqwest = { version = "*", default-features = false, features = ["blocking"] }
rfd = "*"
ringbuf = "=0.4.8"
spin_sleep = "=1.3.3"
