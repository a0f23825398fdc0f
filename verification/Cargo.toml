[package]
name = "remotelink"
version = "0.1.0"
edition = "2021"
publish = false

[dependencies]
ed25519-dalek = { version = "=2.2.0", features = ["rand_core"] }
eframe = { version = "0.31", default-features = false, features = ["glow", "default_fonts", "x11"] }
egui = "0.31"
hex = "=0.4.3"
rand = "=0.8.8"
serde = { version = "1", features = ["derive"] }
serde_json = "=1.0.154"
thiserror = "2"
tokio = { version = "1", features = ["rt-multi-thread", "macros", "net", "io-util", "time", "sync"] }
toml = "=0.8.23"
