[package]
name = "imgui_godot"
version = "0.1.0"
edition = "2021"
publish = false

[dependencies]
godot = "*"
imgui = "*"
