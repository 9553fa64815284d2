[package]
name = "quirk"
version = "0.1.0"
edition = "2021"
publish = false

[dependencies]
qrcode = { version = "0.14", default-features = false, features = ["svg"] }
serde = { version = "1", features = ["derive"] }
eframe = { version = "0.29", default-features = false, features = ["default_fonts", "glow", "x11"] }
image = { version = "0.25", default-features = false, features = ["png"] }
rfd = "0.15"
