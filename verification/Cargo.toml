[package]
name = "narui_core"
version = "0.1.0"
edition = "2021"
publish = false

[dependencies]
lyon = "=1.0.19"
stretch = "=0.3.2"
