[package]
name = "keyboard_palette"
version = "0.1.0"
edition = "2021"
publish = false

[dependencies]
cascade = "1"
glib = "0.18"
gtk = "0.18"
gtk-sys = "0.18"
once_cell = "1"
