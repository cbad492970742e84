[package]
name = "skipbot"
version = "0.1.0"
edition = "2021"
publish = false

[dependencies]
rand = "0.8"
serde = { version = "1", features = ["derive"] }
clap = { version = "4", features = ["derive"] }
thiserror = "1"
bincode = { version = "2", features = ["serde"] }
plotters = { version = "0.3", default-features = false, features = ["bitmap_backend", "bitmap_encoder"] }
burn = { version = "0.18", default-features = false, features = ["std"] }
burn-ndarray = { version = "0.18", default-features = false, features = ["std"] }
burn-autodiff = { version = "0.18", default-features = false, features = ["std"] }
burn-train = { version = "0.18", default-features = false }
