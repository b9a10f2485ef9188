[package]
name = "g13_nexus"
version = "0.1.0"
edition = "2021"
publish = false

[dependencies]
serde = { version = "1", features = ["derive"] }
serde_json = "1"
dirs = "6"
eframe = { version = "=0.37.0", default-features = false, features = ["default_fonts", "glow", "x11"] }
hidapi = { version = "=2.6.7", default-features = false, features = ["linux-native-basic-udev"] }
