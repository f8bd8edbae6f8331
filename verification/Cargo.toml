[package]
name = "shellpass"
version = "0.1.0"
edition = "2021"
publish = false

[dependencies]
pgp = "=0.21.0"
urlencoding = "=2.1.3"
anyhow = "=1.0.104"
log = "=0.4.35"
walkdir = "=2.5.0"
bson = { version = "=3.1.0", features = ["serde"] }
serde = { version = "=1.0.229", features = ["derive"] }
egui = "=0.37.0"
eframe = { version = "=0.37.0", default-features = false, features = ["glow", "x11", "default_fonts"] }

[dev-dependencies]
rand = "=0.8.8"
