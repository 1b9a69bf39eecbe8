[package]
name = "blobrepo_factory"
version = "0.1.0"
edition = "2021"
publish = false

[dependencies]
anyhow = "=1.0.104"
chrono = { version = "=0.4.45", default-features = false, features = ["clock", "serde"] }
diesel = { version = "=1.4.8", default-features = false }
futures = "=0.1.31"
libc = "=0.2.191"
parking_lot = "=0.12.5"
rand = "=0.8.8"
serde = { version = "=1.0.229", features = ["derive"] }
serde_json = "1"
slog = "=2.8.2"
