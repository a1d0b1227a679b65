[package]
name = "bevy_kira_audio"
version = "0.1.0"
edition = "2021"
publish = false

[dependencies]
kira = { version = "=0.10.8", default-features = false }
bevy = { version = "=0.17.3", default-features = false }
