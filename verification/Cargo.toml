[package]
name = "lightseek"
version = "0.1.0"
edition = "2021"
publish = false

[dependencies]
blake3 = "1"
percent-encoding = "2"
serde = { version = "1", features = ["derive"] }
serde_json = "1"
rusqlite = { version = "*", features = ["bundled"] }
uuid = { version = "1", features = ["v4"] }
walkdir = "2"
dirs = "*"
http = "1"
rtrb = "0.3"
rayon = "1"
lofty = "*"
symphonia = "0.5"
rubato = "0.15"
ebur128 = "0.1"
image = "0.25"
reqwest = { version = "0.12", default-features = false, features = ["json", "rustls-tls"] }
cpal = "0.15"
