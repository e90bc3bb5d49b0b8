[package]
name = "mems_lidar"
version = "0.1.0"
edition = "2021"
publish = false

[dependencies]
hex = "0.4"
chrono = { version = "0.4", default-features = false, features = ["clock"] }
log = "0.4"
anyhow = "1"
calamine = "0.24"
rayon = "1"
rand = "0.8"
glam = { version = "0.25", features = ["bytemuck", "serde"] }
bytemuck = { version = "1", features = ["derive"] }
serde = { version = "1", features = ["derive"] }
tokio = { version = "1", features = ["rt-multi-thread", "macros", "net", "sync", "time"] }
winit = "0.29"
egui = "0.26"
egui-winit = { version = "0.26", default-features = false }
egui_plot = "0.26"
image = { version = "0.24", default-features = false, features = ["png"] }
rfd = { version = "0.14", default-features = false, features = ["xdg-portal", "tokio"] }
