[package]
name = "desktop_entry"
version = "0.1.0"
edition = "2021"
publish = false

[dependencies]
anyhow = "1"
directories = "5"
gtk4 = "0.7"
libadwaita = "0.5"
open = "5"
