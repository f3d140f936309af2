[package]
name = "screenink"
version = "0.1.0"
edition = "2021"
publish = false

[dependencies]
ashpd = { version = "0.9", default-features = false, features = ["tokio"] }
chrono = "0.4"
dirs = "5"
gdk-pixbuf = "0.20"
gtk4 = "0.9"
image = { version = "0.25", default-features = false, features = ["png"] }
serde = { version = "1", features = ["derive"] }
tokio = { version = "1", features = ["rt-multi-thread", "time"] }
toml = "0.8"
