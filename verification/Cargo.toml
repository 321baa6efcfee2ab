[package]
name = "ui_overlay"
version = "0.1.0"
edition = "2021"
publish = false

[dependencies]
frappe = "=0.4.7"
ggez = "0.5"
