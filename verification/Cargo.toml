[package]
name = "mqtt_test"
version = "0.1.0"
edition = "2021"
publish = false

[dependencies]
rumqttc = { version = "0.24", features = ["websocket"] }
eframe = { version = "*", default-features = false, features = ["default_fonts", "glow", "x11"] }
