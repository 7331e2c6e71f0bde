[package]
name = "zitch"
version = "0.1.0"
edition = "2021"
publish = false

[dependencies]
anyhow = "1"
clap = { version = "4", features = ["derive", "env"] }
directories = "*"
eframe = { version = "*", default-features = false, features = ["default_fonts", "glow", "wayland", "x11"] }
egui = "*"
egui_glow = "*"
env_logger = "*"
getrandom = "*"
gilrs = "*"
image = { version = "*", default-features = false, features = ["gif", "jpeg", "png"] }
libc = "*"
log = "*"
open = "*"
qrcodegen = "*"
sdl2 = "*"
serde = { version = "1", features = ["derive"] }
serde_json = "1"
sha2 = "*"
ureq = "*"
