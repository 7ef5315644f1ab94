[package]
name = "reconstruction"
version = "0.1.0"
edition = "2021"
publish = false

[dependencies]
bincode = "1"
chrono = { version = "0.4", features = ["serde"] }
csv = "1"
image = { version = "0.24", default-features = false, features = ["png"] }
nalgebra = "0.32"
nalgebra-sparse = "0.9"
plotters = { version = "0.3", default-features = false, features = ["bitmap_backend", "bitmap_encoder", "full_palette", "line_series"] }
priority-queue = "1"
rand = "0.8"
rayon = "1"
serde = { version = "1", features = ["derive"] }
serde_json = "1"
sysinfo = "0.29"
uuid = { version = "1", features = ["v4"] }
