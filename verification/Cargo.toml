[package]
name = "tilix"
version = "0.1.0"
edition = "2021"
publish = false

[dependencies]
gtk4 = "*"
libadwaita = "*"
vte4 = "*"
glib = "*"
gio = "*"
libc = "*"
serde_json = "*"
