[package]
name = "sdroxide-ui"
version = "0.1.0"
edition = "2021"
publish = false

[dependencies]
image = { version = "=0.25.10", default-features = false, features = ["png", "jpeg"] }
eframe = { version = "=0.37.0", default-features = false, features = ["default_fonts", "persistence", "x11"] }
ewebsock = "=0.8.0"
serde = { version = "=1.0.229", features = ["derive"] }
bytemuck = { version = "=1.25.2", features = ["derive"] }
rfd = { version = "=0.17.2", default-features = false, features = ["xdg-portal"] }
