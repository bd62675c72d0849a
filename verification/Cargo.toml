[package]
name = "hinaview"
version = "0.1.0"
edition = "2021"
publish = false

[dependencies]
lru = "*"
imagesize = "*"
serde = { version = "1", features = ["derive"] }
serde_json = "1"
zip = "*"
kamadak-exif = "*"
dirs = "*"
anyhow = "1"
num_cpus = "1"
rusqlite = { version = "*", features = ["bundled"] }
crossbeam = "*"
parking_lot = "*"
