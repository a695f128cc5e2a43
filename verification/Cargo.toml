[package]
name = "wlipman"
version = "0.1.0"
edition = "2021"
publish = false

[dependencies]
anyhow = "1"
dirs = "*"
rmp-serde = "1"
wl-clipboard-rs = "*"
