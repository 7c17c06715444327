[package]
name = "stream_ripper"
version = "0.1.0"
edition = "2021"
publish = false

[dependencies]
chrono = "=0.4.45"
clap = { version = "=4.6.7", features = ["derive"] }
ctrlc = "=3.5.2"
flexi_logger = "=0.31.10"
log = { version = "=0.4.34", features = ["serde"] }
serde = { version = "=1.0.229", features = ["derive"] }
toml = "=1.1.7"
