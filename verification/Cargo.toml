[package]
name = "lingua"
version = "0.1.0"
edition = "2021"
publish = false

[dependencies]
anyhow = "1"
console = "0.15"
crossbeam = "0.8"
dotenv = "0.15"
env_logger = "0.11"
flate2 = "1"
log = "0.4"
rand = "0.8"
rayon = "1"
reqwest = { version = "0.12", default-features = false, features = ["blocking"] }
rodio = { version = "0.19", default-features = false, features = ["mp3"] }
serde = { version = "1", features = ["derive"] }
serde_json = "1"
tar = "0.4"
