[package]
name = "rinha_backend"
version = "0.1.0"
edition = "2021"
publish = false

[dependencies]
chrono = { version = "0.4", features = ["serde"] }
rust_decimal = { version = "1", features = ["serde"] }
uuid = { version = "1", features = ["serde", "v4"] }
serde = { version = "1", features = ["derive"] }
serde_json = "1"
may_minihttp = "*"
memmap2 = "0.9"
reqwest = { version = "0.12", default-features = false, features = ["json", "rustls-tls"] }
tokio = { version = "1", features = ["rt-multi-thread", "time", "sync", "macros"] }
r2d2 = "0.8"
r2d2_sqlite = "*"
rusqlite = { version = "*", features = ["bundled"] }
