[package]
name = "drawing_board"
version = "0.1.0"
edition = "2021"
publish = false

[dependencies]
anyhow = "=1.0.104"
chrono = { version = "0.4", default-features = false, features = ["clock", "serde", "std"] }
dashmap = "=6.2.1"
egui = { version = "=0.29.1", default-features = false, features = ["serde"] }
egui_dock = { version = "0.14", features = ["serde"] }
image = { version = "0.25", default-features = false, features = ["png"] }
indexmap = "=2.14.2"
miniz_oxide = "0.8"
quinn = { version = "=0.11.12", default-features = false, features = ["runtime-tokio", "rustls-ring"] }
rcgen = "=0.13.2"
rfd = { version = "0.15", default-features = false, features = ["xdg-portal", "tokio"] }
rmp-serde = "1"
serde = { version = "=1.0.229", features = ["derive"] }
serde_json = "=1.0.154"
strum = { version = "=0.26.3", features = ["derive"] }
tokio = { version = "=1.54.1", features = ["io-util", "macros", "rt-multi-thread", "sync", "time"] }
tokio-util = "=0.7.20"
tracing = "=0.1.44"
typed_floats = { version = "=1.0.7", features = ["serde"] }
uuid = { version = "=1.29.0", features = ["v4", "serde"] }
