[package]
name = "wardogs_arty_buddy"
version = "0.7.0"
edition = "2021"
publish = false

[dependencies]
eframe = { version = "*", default-features = false, features = ["default_fonts", "glow", "x11"] }
arboard = { version = "3", default-features = false }
ureq = "2"
serde_json = "1"
raw-window-handle = "0.6"
